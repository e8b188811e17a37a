use comic_rezip::{
    get_file_ext_or_itself, plan_entry, plan_extraction, ExtensionHistogram, MyError, RawEntry,
};

fn raw(name: &str, is_directory: bool) -> RawEntry {
    RawEntry { name_bytes: name.as_bytes().to_vec(), is_directory }
}

#[test]
fn extension_or_whole_name() {
    assert_eq!(get_file_ext_or_itself("a.png"), "png");
    assert_eq!(get_file_ext_or_itself("b.TXT"), "TXT");
    assert_eq!(get_file_ext_or_itself("c"), "c");
    assert_eq!(get_file_ext_or_itself("dir/c"), "dir/c");
    assert_eq!(get_file_ext_or_itself("dir/x.tar.gz"), "gz");
    assert_eq!(get_file_ext_or_itself(".hidden"), ".hidden");
}

#[test]
fn histogram_counts_by_extension() {
    let plan = plan_extraction(&vec![
        raw("a.png", false),
        raw("sub/", false),
        raw("sub/a.png", false),
        raw("b.TXT", false),
        raw("c", false),
    ])
    .unwrap();
    let h = &plan.histogram;
    assert_eq!(h.get("png"), 2);
    assert_eq!(h.get("TXT"), 1);
    assert_eq!(h.get("c"), 1);
    assert_eq!(h.get("txt"), 0);
    assert_eq!(h.get("sub/"), 0);
    assert_eq!(h.len(), 3);
    let mut entries = h.entries();
    entries.sort();
    assert_eq!(
        entries,
        vec![("TXT".to_string(), 1), ("c".to_string(), 1), ("png".to_string(), 2)]
    );
}

#[test]
fn histogram_records_one_key_at_a_time() {
    let mut h = ExtensionHistogram::new();
    assert_eq!(h.len(), 0);
    h.record(&"png".to_string());
    h.record(&"PNG".to_string());
    h.record(&"png".to_string());
    assert_eq!(h.get("png"), 2);
    assert_eq!(h.get("PNG"), 1);
    assert_eq!(h.len(), 2);
}

#[test]
fn directories_are_staged_but_not_counted() {
    let plan = plan_extraction(&vec![raw("vol1/", false), raw("vol2", true), raw("vol1/p.jpg", false)])
        .unwrap();
    assert_eq!(plan.entries.len(), 3);
    assert!(plan.entries[0].is_directory);
    assert!(plan.entries[1].is_directory);
    assert!(!plan.entries[2].is_directory);
    assert_eq!(plan.entries[2].decoded_name, "vol1/p.jpg");
    assert_eq!(plan.histogram.len(), 1);
    assert_eq!(plan.histogram.get("jpg"), 1);
}

#[test]
fn traversal_fails_the_whole_archive() {
    let r = plan_extraction(&vec![raw("ok.jpg", false), raw("../evil.sh", false), raw("/abs", false)]);
    assert!(matches!(r, Err(MyError::PathTraversal(n)) if n == "../evil.sh"));
}

#[test]
fn single_entry_plans() {
    let d = plan_entry(&raw("a/b.png", false)).unwrap();
    assert_eq!(d.decoded_name, "a/b.png");
    assert!(!d.is_directory);
    assert!(matches!(plan_entry(&raw("C:/x", false)), Err(MyError::PathTraversal(_))));
}

#[test]
fn empty_archive_plans_nothing() {
    let plan = plan_extraction(&vec![]).unwrap();
    assert!(plan.entries.is_empty());
    assert_eq!(plan.histogram.len(), 0);
}

#[test]
fn histogram_does_not_depend_on_entry_order() {
    let names = ["x.png", "y.TXT", "z.png", "w"];
    let forward: Vec<RawEntry> = names.iter().map(|n| raw(n, false)).collect();
    let backward: Vec<RawEntry> = names.iter().rev().map(|n| raw(n, false)).collect();
    let mut a = plan_extraction(&forward).unwrap().histogram.entries();
    let mut b = plan_extraction(&backward).unwrap().histogram.entries();
    a.sort();
    b.sort();
    assert_eq!(a, b);
    assert_eq!(a, vec![("TXT".to_string(), 1), ("png".to_string(), 2), ("w".to_string(), 1)]);
}
