use list_images::archives::{keep_member, member_display_path, resolve, Entry, RawMember};
use list_images::images::Source;

fn raw(name: &str, data: Vec<u8>, regular: bool) -> RawMember {
    RawMember { entry: Entry { name: String::from(name), data }, regular }
}

#[test]
fn keep_member_filters_non_regular_and_empty() {
    assert!(keep_member(true, 5));
    assert!(!keep_member(true, 0));
    assert!(!keep_member(false, 5));
    assert!(!keep_member(false, 0));
}

#[test]
fn display_path_joins_with_separator() {
    assert_eq!(member_display_path("/a/b.zip", "c.png"), "/a/b.zip/c.png");
}

#[test]
fn display_path_keeps_absolute_member_names() {
    assert_eq!(member_display_path("/a/b.zip", "/abs.png"), "/abs.png");
}

#[test]
fn display_path_avoids_double_separator() {
    assert_eq!(member_display_path("/a/b.zip/", "c.png"), "/a/b.zip/c.png");
}

#[test]
fn non_archive_resolves_to_single_path_source() {
    let srcs = resolve("/pics/plain.png", None);
    assert_eq!(srcs.len(), 1);
    match &srcs[0] {
        Source::Path(p) => assert_eq!(p.as_str(), "/pics/plain.png"),
        Source::Mem(..) => panic!("expected a path source"),
    }
}

#[test]
fn archive_members_resolve_in_order() {
    let members = vec![
        raw("one.png", vec![1], true),
        raw("two.png", vec![2, 2], true),
        raw("three.png", vec![3, 3, 3], true),
    ];
    let srcs = resolve("/pics/a.zip", Some(members));
    assert_eq!(srcs.len(), 3);
    let expected = [
        ("/pics/a.zip/one.png", vec![1u8]),
        ("/pics/a.zip/two.png", vec![2, 2]),
        ("/pics/a.zip/three.png", vec![3, 3, 3]),
    ];
    for (src, (path, data)) in srcs.iter().zip(expected.iter()) {
        match src {
            Source::Mem(d, p) => {
                assert_eq!(p.as_str(), *path);
                assert_eq!(d, data);
            },
            Source::Path(_) => panic!("expected an in-memory source"),
        }
    }
}

#[test]
fn skipped_members_leave_no_source() {
    // Directories and empty entries vanish; the survivors keep their
    // relative order.
    let members = vec![
        raw("kept-a.png", vec![1], true),
        raw("dir/", Vec::new(), false),
        raw("empty.png", Vec::new(), true),
        raw("special", vec![9, 9], false),
        raw("kept-b.png", vec![2], true),
    ];
    let srcs = resolve("/pics/a.zip", Some(members));
    assert_eq!(srcs.len(), 2);
    match &srcs[0] {
        Source::Mem(d, p) => {
            assert_eq!(p.as_str(), "/pics/a.zip/kept-a.png");
            assert_eq!(d, &vec![1u8]);
        },
        Source::Path(_) => panic!("expected an in-memory source"),
    }
    match &srcs[1] {
        Source::Mem(d, p) => {
            assert_eq!(p.as_str(), "/pics/a.zip/kept-b.png");
            assert_eq!(d, &vec![2u8]);
        },
        Source::Path(_) => panic!("expected an in-memory source"),
    }
}

#[test]
fn empty_archive_resolves_to_nothing() {
    let srcs = resolve("/pics/empty.zip", Some(Vec::new()));
    assert_eq!(srcs.len(), 0);
}
