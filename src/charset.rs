//! Resolution of the charset of an archive entry's raw name, and its decoding.

use vstd::prelude::*;

use crate::constant::FALLBACK_ENCODING;
use crate::my_error::MyError;
use encoding::label::encoding_from_whatwg_label;
use encoding::DecoderTrap;

verus! {

/// The charset that `chardet::detect` reports for `raw` (empty when it has none).
pub uninterp spec fn detected_charset(raw: Seq<u8>) -> Seq<char>;

/// `encoding_from_whatwg_label` finds a decoder for `label`.
pub uninterp spec fn has_whatwg_decoder(label: Seq<char>) -> bool;

/// The text that the decoder found for `label` makes of `raw`, skipping
/// malformed sequences.
pub uninterp spec fn decoded_text(label: Seq<char>, raw: Seq<u8>) -> Seq<char>;

/// A byte that moves the detector off plain ASCII.
pub open spec fn is_high_byte(b: u8) -> bool {
    b >= 0x80 && b != 0xa0
}

/// Seven-bit input that carries an escape byte: the detector then runs its
/// escape-sequence prober alone, and aborts when that prober finds nothing.
pub open spec fn is_escape_only(raw: Seq<u8>) -> bool {
    &&& exists|i: int| 0 <= i < raw.len() && raw[i] == 0x1b
    &&& forall|i: int| 0 <= i < raw.len() ==> !is_high_byte(#[trigger] raw[i])
}

/// The label under which the encoding crate knows a charset named by chardet.
pub open spec fn whatwg_label_of(charset: Seq<char>) -> Seq<char> {
    if charset == "CP932"@ {
        "windows-31j"@
    } else if charset == "CP949"@ {
        "windows-949"@
    } else if charset == "MacCyrillic"@ {
        "x-mac-cyrillic"@
    } else {
        charset
    }
}

/// The detected charset, or the fallback when detection named none.
pub open spec fn settled_charset(detected: Seq<char>) -> Seq<char> {
    if detected.len() == 0 {
        FALLBACK_ENCODING@
    } else {
        detected
    }
}

/// The charset that a raw entry name is decoded under. Detection is not run
/// on escape-only input, which counts as unclassified.
pub open spec fn charset_of_name(raw: Seq<u8>) -> Seq<char> {
    if is_escape_only(raw) {
        FALLBACK_ENCODING@
    } else {
        settled_charset(detected_charset(raw))
    }
}

/// Relies on `chardet::detect`: the charset it names depends on the bytes
/// alone. It aborts on some escape-only input, which `requires` leaves out;
/// the confidence and language it also reports are not used.
#[verifier::external_body]
fn detect_charset(raw: &[u8]) -> (r: String)
    requires
        !is_escape_only(raw@),
    ensures
        r@ == detected_charset(raw@),
{
    chardet::detect(raw).0
}

/// Relies on `chardet::charset2encoding`, which renames three charsets and
/// hands every other name back.
#[verifier::external_body]
fn charset_label(charset: &String) -> (r: String)
    ensures
        r@ == whatwg_label_of(charset@),
{
    chardet::charset2encoding(charset).to_string()
}

/// Relies on `encoding::label::encoding_from_whatwg_label`, which finds the
/// decoder for a label (`Shift_JIS` is one it knows), and on
/// `Encoding::decode`, which with `DecoderTrap::Ignore` drops malformed
/// sequences and never fails.
#[verifier::external_body]
fn decode_with_label(label: &str, raw: &[u8]) -> (r: Option<String>)
    ensures
        r is Some <==> has_whatwg_decoder(label@),
        r matches Some(s) ==> s@ == decoded_text(label@, raw@),
        label@ == FALLBACK_ENCODING@ ==> r is Some,
{
    match encoding_from_whatwg_label(label) {
        Some(decoder) => decoder.decode(raw, DecoderTrap::Ignore).ok(),
        None => None,
    }
}

/// Whether `raw` is seven-bit input that carries an escape byte.
pub fn escape_only(raw: &[u8]) -> (r: bool)
    ensures
        r == is_escape_only(raw@),
{
    let mut has_esc = false;
    let mut i: usize = 0;
    while i < raw.len()
        invariant
            i <= raw@.len(),
            has_esc == exists|k: int| 0 <= k < i && raw@[k] == 0x1b,
            forall|k: int| 0 <= k < i ==> !is_high_byte(#[trigger] raw@[k]),
        decreases raw@.len() - i,
    {
        let b = raw[i];
        if b >= 0x80 && b != 0xa0 {
            return false;
        }
        if b == 0x1b {
            has_esc = true;
        }
        i = i + 1;
    }
    has_esc
}

/// The charset to decode under, given what detection reported: the fallback
/// when it reported none.
pub fn choose_charset(detected: &str) -> (r: String)
    ensures
        r@ == settled_charset(detected@),
{
    if detected.unicode_len() == 0 {
        String::from_str(FALLBACK_ENCODING)
    } else {
        String::from_str(detected)
    }
}

/// Decodes `raw` under `charset`; fails when no decoder exists for it.
pub fn decode_as(charset: &String, raw: &[u8]) -> (r: Result<String, MyError>)
    ensures
        has_whatwg_decoder(whatwg_label_of(charset@)) ==> (r matches Ok(s) && s@ == decoded_text(
            whatwg_label_of(charset@),
            raw@,
        )),
        !has_whatwg_decoder(whatwg_label_of(charset@)) ==> (r matches Err(
            MyError::EncodingUnavailable(c),
        ) && c@ == charset@),
        charset@ == FALLBACK_ENCODING@ ==> (r matches Ok(s) && s@ == decoded_text(
            FALLBACK_ENCODING@,
            raw@,
        )),
{
    proof {
        lemma_fallback_label_kept();
    }
    let label = charset_label(charset);
    match decode_with_label(label.as_str(), raw) {
        Some(s) => Ok(s),
        None => Err(MyError::EncodingUnavailable(charset.clone())),
    }
}

/// The charset under which a raw entry name is decoded, and whether it is
/// the fallback taken for want of a classification (so that a caller can
/// give notice of it). Every escape-only name takes the fallback: detection
/// is not run on it, since the detector aborts on part of such input and
/// nothing outside it tells which part; such a name in ISO-2022-JP, for
/// instance, is decoded as Shift_JIS.
pub fn charset_for_name(raw: &[u8]) -> (r: (String, bool))
    ensures
        r.0@ == charset_of_name(raw@),
        r.1 == (is_escape_only(raw@) || detected_charset(raw@).len() == 0),
        r.1 ==> r.0@ == FALLBACK_ENCODING@,
{
    if escape_only(raw) {
        (String::from_str(FALLBACK_ENCODING), true)
    } else {
        let detected = detect_charset(raw);
        let unclassified = detected.unicode_len() == 0;
        (choose_charset(detected.as_str()), unclassified)
    }
}

/// Decodes an archive entry's raw name under the charset that
/// `charset_for_name` settles on: the detected one, or the fallback for a
/// name that detection classifies as nothing and for every escape-only name.
pub fn decode_zip_filename(raw: &[u8]) -> (r: Result<String, MyError>)
    ensures
        has_whatwg_decoder(whatwg_label_of(charset_of_name(raw@))) ==> (r matches Ok(s) && s@
            == decoded_text(whatwg_label_of(charset_of_name(raw@)), raw@)),
        !has_whatwg_decoder(whatwg_label_of(charset_of_name(raw@))) ==> (r matches Err(
            MyError::EncodingUnavailable(c),
        ) && c@ == charset_of_name(raw@)),
        is_escape_only(raw@) || detected_charset(raw@).len() == 0 ==> (r matches Ok(s) && s@
            == decoded_text(FALLBACK_ENCODING@, raw@)),
{
    let (charset, _) = charset_for_name(raw);
    decode_as(&charset, raw)
}

/// The fallback charset is its own label.
pub proof fn lemma_fallback_label_kept()
    ensures
        whatwg_label_of(FALLBACK_ENCODING@) == FALLBACK_ENCODING@,
{
    reveal_strlit("Shift_JIS");
    reveal_strlit("CP932");
    reveal_strlit("CP949");
    reveal_strlit("MacCyrillic");
}

} // verus!
