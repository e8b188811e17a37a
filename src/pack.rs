//! The decisions of packing: which staged entries the rebuilt archive holds,
//! under which names, and when packing must not start at all. Walking the
//! staging directory and writing the archive are left to the caller.

use vstd::prelude::*;

use crate::constant::MACOS_ARTIFACT_DIR;
use crate::my_error::MyError;
use crate::paths::{extension_of, path_extension};
use crate::text::chars_of;

verus! {

/// `needle` occurs in `hay` as a contiguous run.
pub open spec fn contains_run(hay: Seq<char>, needle: Seq<char>) -> bool {
    exists|i: int|
        0 <= i && i + needle.len() <= hay.len() && #[trigger] hay.subrange(i, i + needle.len())
            == needle
}

/// The extension of `path`, empty where it has none.
pub open spec fn ext_or_empty(path: Seq<char>) -> Seq<char> {
    match path_extension(path) {
        Some(e) => e,
        None => seq![],
    }
}

/// `p` lies inside directory `d` (every non-empty path lies inside the root `""`).
pub open spec fn is_within(p: Seq<char>, d: Seq<char>) -> bool {
    if d.len() == 0 {
        p.len() > 0
    } else {
        p.len() > d.len() && p.subrange(0, d.len() as int) == d && p[d.len() as int] == '/'
    }
}

/// The views of a list of strings.
pub open spec fn views(v: Seq<String>) -> Seq<Seq<char>> {
    v.map_values(|s: String| s@)
}

/// The trash extensions of the default policy.
pub open spec fn default_trash_extensions() -> Seq<Seq<char>> {
    seq!["url"@, "db"@, "txt"@, "html"@, "torrent"@, "part"@]
}

/// Exclusion rules for staged entries: directories whose path holds one of
/// the artifact markers, and files whose extension is one of the trash
/// extensions (matched exactly, case included).
#[derive(Debug, Clone)]
pub struct EntryFilter {
    pub trash_extensions: Vec<String>,
    pub artifact_markers: Vec<String>,
}

impl EntryFilter {
    /// The entry passes the rules.
    pub open spec fn allows(&self, path: Seq<char>, is_dir: bool) -> bool {
        if is_dir {
            forall|k: int|
                0 <= k < self.artifact_markers@.len() ==> !contains_run(
                    path,
                    #[trigger] self.artifact_markers@[k]@,
                )
        } else {
            forall|k: int|
                0 <= k < self.trash_extensions@.len() ==> #[trigger] self.trash_extensions@[k]@
                    != ext_or_empty(path)
        }
    }

    /// Excludes nothing.
    pub open spec fn is_identity(&self) -> bool {
        self.trash_extensions@.len() == 0 && self.artifact_markers@.len() == 0
    }

    /// A filter that excludes nothing.
    pub fn identity() -> (r: EntryFilter)
        ensures
            r.is_identity(),
    {
        EntryFilter { trash_extensions: Vec::new(), artifact_markers: Vec::new() }
    }

    /// Drops macOS resource-fork folders and files with the extensions
    /// url, db, txt, html, torrent and part.
    pub fn default_policy() -> (r: EntryFilter)
        ensures
            views(r.trash_extensions@) == default_trash_extensions(),
            views(r.artifact_markers@) == seq![MACOS_ARTIFACT_DIR@],
    {
        let mut trash: Vec<String> = Vec::new();
        trash.push(String::from_str("url"));
        trash.push(String::from_str("db"));
        trash.push(String::from_str("txt"));
        trash.push(String::from_str("html"));
        trash.push(String::from_str("torrent"));
        trash.push(String::from_str("part"));
        let mut markers: Vec<String> = Vec::new();
        markers.push(String::from_str(MACOS_ARTIFACT_DIR));
        let r = EntryFilter { trash_extensions: trash, artifact_markers: markers };
        assert(views(r.trash_extensions@) =~= default_trash_extensions());
        assert(views(r.artifact_markers@) =~= seq![MACOS_ARTIFACT_DIR@]);
        r
    }

    /// The same rules, with files of extension `ext` dropped too.
    pub fn with_trash_extension(self, ext: &str) -> (r: EntryFilter)
        ensures
            views(r.trash_extensions@) == views(self.trash_extensions@).push(ext@),
            r.artifact_markers == self.artifact_markers,
    {
        let mut r = self;
        r.trash_extensions.push(String::from_str(ext));
        assert(views(r.trash_extensions@) =~= views(self.trash_extensions@).push(ext@));
        r
    }

    /// The same rules, with directories whose path holds `marker` dropped too.
    pub fn with_artifact_marker(self, marker: &str) -> (r: EntryFilter)
        ensures
            views(r.artifact_markers@) == views(self.artifact_markers@).push(marker@),
            r.trash_extensions == self.trash_extensions,
    {
        let mut r = self;
        r.artifact_markers.push(String::from_str(marker));
        assert(views(r.artifact_markers@) =~= views(self.artifact_markers@).push(marker@));
        r
    }

    /// Whether the entry at `path` passes the rules.
    pub fn admits(&self, path: &str, is_dir: bool) -> (r: bool)
        ensures
            r == self.allows(path@, is_dir),
    {
        if is_dir {
            let hay = chars_of(path);
            let mut k: usize = 0;
            while k < self.artifact_markers.len()
                invariant
                    is_dir,
                    hay@ == path@,
                    k <= self.artifact_markers@.len(),
                    forall|m: int|
                        0 <= m < k ==> !contains_run(path@, #[trigger] self.artifact_markers@[m]@),
                decreases self.artifact_markers@.len() - k,
            {
                let needle = chars_of(self.artifact_markers[k].as_str());
                if has_run(&hay, &needle) {
                    assert(!self.allows(path@, is_dir)) by {
                        assert(contains_run(path@, self.artifact_markers@[k as int]@));
                    }
                    return false;
                }
                k = k + 1;
            }
            true
        } else {
            let ext = match extension_of(path) {
                Some(e) => e,
                None => String::new(),
            };
            assert(ext@ == ext_or_empty(path@));
            let mut k: usize = 0;
            while k < self.trash_extensions.len()
                invariant
                    !is_dir,
                    ext@ == ext_or_empty(path@),
                    k <= self.trash_extensions@.len(),
                    forall|m: int|
                        0 <= m < k ==> #[trigger] self.trash_extensions@[m]@ != ext_or_empty(path@),
                decreases self.trash_extensions@.len() - k,
            {
                if self.trash_extensions[k] == ext {
                    proof {
                        let kk = k as int;
                        assert(self.trash_extensions@[kk]@ == ext_or_empty(path@));
                        assert(0 <= kk < self.trash_extensions@.len());
                    }
                    return false;
                }
                k = k + 1;
            }
            true
        }
    }
}

/// Whether `needle` occurs in `hay` starting at position `i`.
fn run_at(hay: &Vec<char>, needle: &Vec<char>, i: usize) -> (r: bool)
    requires
        i + needle@.len() <= hay@.len(),
    ensures
        r == (hay@.subrange(i as int, i + needle@.len()) == needle@),
{
    let n = needle.len();
    let hl = hay.len();
    let mut j: usize = 0;
    while j < n
        invariant
            n == needle@.len(),
            hl == hay@.len(),
            i + n <= hay@.len(),
            j <= n,
            forall|t: int| 0 <= t < j ==> hay@[i + t] == needle@[t],
        decreases n - j,
    {
        if hay[i + j] != needle[j] {
            assert(hay@.subrange(i as int, i + n)[j as int] != needle@[j as int]);
            return false;
        }
        j = j + 1;
    }
    assert(hay@.subrange(i as int, i + n) =~= needle@);
    true
}

/// Whether `needle` occurs in `hay` as a contiguous run.
fn has_run(hay: &Vec<char>, needle: &Vec<char>) -> (r: bool)
    ensures
        r == contains_run(hay@, needle@),
{
    let n = needle.len();
    if n > hay.len() {
        return false;
    }
    if n == 0 {
        assert(hay@.subrange(0, 0 + needle@.len() as int) =~= needle@);
        return true;
    }
    let hl = hay.len();
    let mut i: usize = 0;
    while i <= hl - n
        invariant
            n == needle@.len(),
            hl == hay@.len(),
            1 <= n <= hl,
            i <= hl - n + 1,
            forall|s: int| 0 <= s < i ==> #[trigger] hay@.subrange(s, s + n) != needle@,
        decreases hay@.len() - i,
    {
        if run_at(hay, needle, i) {
            return true;
        }
        i = i + 1;
    }
    assert forall|s: int| 0 <= s && s + n <= hay@.len() implies #[trigger] hay@.subrange(s, s + n)
        != needle@ by {
        assert(s < i);
    }
    false
}

/// A staged filesystem entry, with its path relative to the staging root
/// (the root itself is the directory `""`).
#[derive(Debug, Clone)]
pub struct StagedEntry {
    pub path: String,
    pub is_dir: bool,
}

/// One record of the rebuilt archive.
#[derive(Debug, Clone, PartialEq, Eq)]
pub struct PackRecord {
    pub name: String,
    pub is_dir: bool,
}

/// A directory that the filter drops, with all it holds.
pub open spec fn excluded_dir(f: EntryFilter, e: StagedEntry) -> bool {
    e.is_dir && !f.allows(e.path@, true)
}

/// Entry `i` goes into the archive: it is not the root directory, the
/// filter passes it, and it lies in no directory that the filter drops.
pub open spec fn kept(f: EntryFilter, es: Seq<StagedEntry>, i: int) -> bool {
    &&& !(es[i].is_dir && es[i].path@.len() == 0)
    &&& f.allows(es[i].path@, es[i].is_dir)
    &&& forall|j: int|
        0 <= j < es.len() && #[trigger] excluded_dir(f, es[j]) ==> !is_within(
            es[i].path@,
            es[j].path@,
        )
}

/// The records, in walk order, that the first `n` entries give.
pub open spec fn pack_records(f: EntryFilter, es: Seq<StagedEntry>, n: int) -> Seq<(Seq<char>, bool)>
    decreases n,
{
    if n <= 0 {
        seq![]
    } else {
        let prev = pack_records(f, es, n - 1);
        if kept(f, es, n - 1) {
            prev.push((es[n - 1].path@, es[n - 1].is_dir))
        } else {
            prev
        }
    }
}

pub open spec fn record_views(v: Seq<PackRecord>) -> Seq<(Seq<char>, bool)> {
    v.map_values(|r: PackRecord| (r.name@, r.is_dir))
}

/// Whether `p` lies inside directory `d`.
fn within(p: &Vec<char>, d: &Vec<char>) -> (r: bool)
    ensures
        r == is_within(p@, d@),
{
    let dl = d.len();
    if dl == 0 {
        return p.len() > 0;
    }
    if p.len() <= dl {
        return false;
    }
    run_at(p, d, 0) && p[dl] == '/'
}

/// Decides what packing writes. It fails when the source is not a
/// directory, and when the destination already exists; otherwise it gives a
/// record for every entry of the walk, in walk order, that is not the root,
/// passes the filter, and lies in no directory that the filter drops.
pub fn plan_pack(
    source: &str,
    source_is_dir: bool,
    destination: &str,
    destination_exists: bool,
    filter: &EntryFilter,
    entries: &Vec<StagedEntry>,
) -> (r: Result<Vec<PackRecord>, MyError>)
    ensures
        !source_is_dir ==> (r matches Err(MyError::SourceNotFound(s)) && s@ == source@),
        source_is_dir && destination_exists ==> (r matches Err(MyError::DestinationExists(d))
            && d@ == destination@),
        source_is_dir && !destination_exists ==> (r matches Ok(v) && record_views(v@)
            == pack_records(*filter, entries@, entries@.len() as int)),
{
    if !source_is_dir {
        return Err(MyError::SourceNotFound(String::from_str(source)));
    }
    if destination_exists {
        return Err(MyError::DestinationExists(String::from_str(destination)));
    }
    let n = entries.len();
    let mut paths: Vec<Vec<char>> = Vec::new();
    let mut dropped: Vec<bool> = Vec::new();
    let mut i: usize = 0;
    while i < n
        invariant
            n == entries@.len(),
            i <= n,
            paths@.len() == i,
            dropped@.len() == i,
            forall|j: int| 0 <= j < i ==> (#[trigger] paths@[j])@ == entries@[j].path@,
            forall|j: int| 0 <= j < i ==> #[trigger] dropped@[j] == excluded_dir(*filter, entries@[j]),
        decreases n - i,
    {
        paths.push(chars_of(entries[i].path.as_str()));
        dropped.push(entries[i].is_dir && !filter.admits(entries[i].path.as_str(), true));
        i = i + 1;
    }
    let mut out: Vec<PackRecord> = Vec::new();
    let mut i: usize = 0;
    while i < n
        invariant
            n == entries@.len(),
            i <= n,
            paths@.len() == n,
            dropped@.len() == n,
            forall|j: int| 0 <= j < n ==> (#[trigger] paths@[j])@ == entries@[j].path@,
            forall|j: int| 0 <= j < n ==> #[trigger] dropped@[j] == excluded_dir(*filter, entries@[j]),
            record_views(out@) == pack_records(*filter, entries@, i as int),
        decreases n - i,
    {
        let e = &entries[i];
        let mut keep = !(e.is_dir && paths[i].len() == 0) && filter.admits(e.path.as_str(), e.is_dir);
        let mut j: usize = 0;
        while j < n && keep
            invariant
                n == entries@.len(),
                i < n,
                j <= n,
                paths@.len() == n,
                dropped@.len() == n,
                forall|t: int| 0 <= t < n ==> (#[trigger] paths@[t])@ == entries@[t].path@,
                forall|t: int| 0 <= t < n ==> #[trigger] dropped@[t] == excluded_dir(*filter, entries@[t]),
                keep == (!(entries@[i as int].is_dir && entries@[i as int].path@.len() == 0)
                    && filter.allows(entries@[i as int].path@, entries@[i as int].is_dir) && forall|t: int|
                    0 <= t < j && #[trigger] excluded_dir(*filter, entries@[t]) ==> !is_within(
                    entries@[i as int].path@,
                    entries@[t].path@,
                )),
            decreases n - j,
        {
            if dropped[j] && within(&paths[i], &paths[j]) {
                keep = false;
            }
            j = j + 1;
        }
        assert(keep == kept(*filter, entries@, i as int));
        let ghost before = out@;
        if keep {
            out.push(PackRecord { name: e.path.clone(), is_dir: e.is_dir });
            assert(record_views(out@) =~= record_views(before).push((e.path@, e.is_dir)));
        }
        i = i + 1;
    }
    Ok(out)
}

/// The records hold exactly the kept entries among the first `n`.
pub proof fn lemma_pack_members(f: EntryFilter, es: Seq<StagedEntry>, n: int)
    requires
        0 <= n <= es.len(),
    ensures
        forall|p: Seq<char>, d: bool|
            #[trigger] pack_records(f, es, n).contains((p, d)) <==> exists|i: int|
                0 <= i < n && kept(f, es, i) && es[i].path@ == p && es[i].is_dir == d,
    decreases n,
{
    if n > 0 {
        lemma_pack_members(f, es, n - 1);
        let prev = pack_records(f, es, n - 1);
        let cur = pack_records(f, es, n);
        assert forall|p: Seq<char>, d: bool| #[trigger] cur.contains((p, d)) <==> exists|i: int|
            0 <= i < n && kept(f, es, i) && es[i].path@ == p && es[i].is_dir == d by {
            if cur.contains((p, d)) {
                let k = choose|k: int| 0 <= k < cur.len() && cur[k] == (p, d);
                if k < prev.len() {
                    assert(prev[k] == (p, d));
                    assert(prev.contains((p, d)));
                    let i = choose|i: int|
                        0 <= i < n - 1 && kept(f, es, i) && es[i].path@ == p && es[i].is_dir == d;
                    assert(0 <= i < n && kept(f, es, i) && es[i].path@ == p && es[i].is_dir == d);
                } else {
                    assert(0 <= n - 1 < n && kept(f, es, n - 1) && es[n - 1].path@ == p && es[n
                        - 1].is_dir == d);
                }
            }
            if exists|i: int| 0 <= i < n && kept(f, es, i) && es[i].path@ == p && es[i].is_dir == d {
                let i = choose|i: int|
                    0 <= i < n && kept(f, es, i) && es[i].path@ == p && es[i].is_dir == d;
                if i < n - 1 {
                    assert(prev.contains((p, d)));
                    let k = choose|k: int| 0 <= k < prev.len() && prev[k] == (p, d);
                    assert(cur[k] == (p, d));
                } else {
                    assert(cur[cur.len() - 1] == (p, d));
                }
            }
        }
    }
}

/// A file of the plan: some non-directory entry stages at `p`.
pub open spec fn planned_file(plan: Seq<crate::extract::DecodedEntry>, p: Seq<char>) -> bool {
    exists|i: int| 0 <= i < plan.len() && !plan[i].is_directory && #[trigger] plan[i].decoded_name@ == p
}

/// The staging tree holds an entry at `p`, a directory or not as `d` says.
pub open spec fn staged_at(es: Seq<StagedEntry>, p: Seq<char>, d: bool) -> bool {
    exists|i: int| 0 <= i < es.len() && es[i].is_dir == d && #[trigger] es[i].path@ == p
}

/// Round trip: packing with the identity filter a staging tree whose files
/// are those an extraction plan staged gives a file record for exactly each
/// planned file, and a directory record for exactly each staged directory
/// but the root.
pub proof fn lemma_round_trip(
    f: EntryFilter,
    plan: Seq<crate::extract::DecodedEntry>,
    staged: Seq<StagedEntry>,
)
    requires
        f.is_identity(),
        forall|p: Seq<char>| #[trigger] planned_file(plan, p) <==> staged_at(staged, p, false),
    ensures
        forall|p: Seq<char>|
            #[trigger] pack_records(f, staged, staged.len() as int).contains((p, false))
                <==> planned_file(plan, p),
        forall|p: Seq<char>|
            p.len() > 0 ==> (#[trigger] pack_records(f, staged, staged.len() as int).contains(
                (p, true),
            ) <==> staged_at(staged, p, true)),
{
    let n = staged.len() as int;
    lemma_pack_members(f, staged, n);
    assert forall|i: int| 0 <= i < n implies kept(f, staged, i) == !(staged[i].is_dir
        && staged[i].path@.len() == 0) by {
        assert forall|j: int| 0 <= j < n implies !#[trigger] excluded_dir(f, staged[j]) by {}
    }
    assert forall|p: Seq<char>| #[trigger] pack_records(f, staged, n).contains((p, false))
        <==> planned_file(plan, p) by {
        if staged_at(staged, p, false) {
            let i = choose|i: int| 0 <= i < n && staged[i].is_dir == false && #[trigger] staged[i].path@ == p;
            assert(kept(f, staged, i));
        }
    }
    assert forall|p: Seq<char>| p.len() > 0 implies (#[trigger] pack_records(f, staged, n).contains((p, true))
        <==> staged_at(staged, p, true)) by {
        if staged_at(staged, p, true) {
            let i = choose|i: int| 0 <= i < n && staged[i].is_dir == true && #[trigger] staged[i].path@ == p;
            assert(kept(f, staged, i));
        }
    }
}

} // verus!
