use comic_rezip::{plan_pack, EntryFilter, MyError, PackRecord, StagedEntry};

fn entry(path: &str, is_dir: bool) -> StagedEntry {
    StagedEntry { path: path.to_string(), is_dir }
}

fn names(records: &[PackRecord]) -> Vec<(String, bool)> {
    records.iter().map(|r| (r.name.clone(), r.is_dir)).collect()
}

fn macos_tree() -> Vec<StagedEntry> {
    vec![
        entry("", true),
        entry("__MACOSX", true),
        entry("__MACOSX/._cover.jpg", false),
        entry("cover.jpg", false),
        entry("notes.txt", false),
    ]
}

#[test]
fn default_filter_keeps_only_the_cover() {
    let f = EntryFilter::default_policy();
    let r = plan_pack("/tmp/s", true, "/o/a.zip", false, &f, &macos_tree()).unwrap();
    assert_eq!(names(&r), vec![("cover.jpg".to_string(), false)]);
}

#[test]
fn default_filter_rules() {
    let f = EntryFilter::default_policy();
    assert!(!f.admits("notes.txt", false));
    assert!(!f.admits("a/b.url", false));
    assert!(!f.admits("x.part", false));
    assert!(f.admits("notes.TXT", false));
    assert!(f.admits("txt", false));
    assert!(f.admits("txt", true));
    assert!(!f.admits("a/__MACOSX", true));
    assert!(f.admits("__MACOSX.jpg", false));
    assert!(f.admits("cover.jpg", false));
}

#[test]
fn second_pack_to_same_destination_is_refused() {
    let f = EntryFilter::default_policy();
    let first = plan_pack("/tmp/s", true, "/o/a.zip", false, &f, &macos_tree());
    assert!(first.is_ok());
    // The first pack created the destination.
    let second = plan_pack("/tmp/s", true, "/o/a.zip", true, &f, &macos_tree());
    assert_eq!(second, Err(MyError::DestinationExists("/o/a.zip".to_string())));
}

#[test]
fn missing_source_is_refused_first() {
    let f = EntryFilter::identity();
    let r = plan_pack("/tmp/none", false, "/o/a.zip", true, &f, &vec![]);
    assert_eq!(r, Err(MyError::SourceNotFound("/tmp/none".to_string())));
}

#[test]
fn identity_filter_keeps_everything_but_the_root() {
    let f = EntryFilter::identity();
    let tree = vec![
        entry("", true),
        entry("vol1", true),
        entry("vol1/page.png", false),
        entry("notes.txt", false),
        entry("__MACOSX", true),
    ];
    let r = plan_pack("/tmp/s", true, "/o/a.zip", false, &f, &tree).unwrap();
    assert_eq!(
        names(&r),
        vec![
            ("vol1".to_string(), true),
            ("vol1/page.png".to_string(), false),
            ("notes.txt".to_string(), false),
            ("__MACOSX".to_string(), true),
        ]
    );
}

#[test]
fn dropped_directory_takes_its_subtree_only() {
    let f = EntryFilter::identity().with_artifact_marker("junk");
    let tree = vec![
        entry("", true),
        entry("junk", true),
        entry("junk/deep", true),
        entry("junk/deep/a.png", false),
        entry("junkyard.png", false),
        entry("ok/junk.png", false),
    ];
    let r = plan_pack("/tmp/s", true, "/o/a.zip", false, &f, &tree).unwrap();
    assert_eq!(
        names(&r),
        vec![("junkyard.png".to_string(), false), ("ok/junk.png".to_string(), false)]
    );
}

#[test]
fn extra_trash_extensions_compose() {
    let f = EntryFilter::default_policy().with_trash_extension("nfo");
    assert!(!f.admits("x.nfo", false));
    assert!(!f.admits("x.db", false));
    assert!(f.admits("x.png", false));
}
