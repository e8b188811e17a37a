//! Fixed configuration values.

use vstd::prelude::*;

verus! {

/// Charset assumed for entry names that detection cannot classify.
pub const FALLBACK_ENCODING: &'static str = "Shift_JIS";

/// Where packed archives go, relative to the user's home directory.
pub const OUT_PATH: &'static str = "Downloads/test-out";

/// Marker of the resource-fork folders that macOS adds to archives.
pub const MACOS_ARTIFACT_DIR: &'static str = "__MACOSX";

/// Extension given to converted images.
pub const JPEG_EXT: &'static str = "jpg";

/// JPEG quality, on a 0 to 100 scale, of converted images.
pub const JPEG_QUALITY: u8 = 86;

} // verus!
