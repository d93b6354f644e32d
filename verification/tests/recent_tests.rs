use wiki_server::recent::{is_last_project, remove_recent, update_recent, MAX_RECENT};

fn v(items: &[&str]) -> Vec<String> {
    items.iter().map(|s| s.to_string()).collect()
}

#[test]
fn opening_moves_project_to_front() {
    let r = update_recent(&v(&["/a", "/b", "/c"]), "/b");
    assert_eq!(r, v(&["/b", "/a", "/c"]));
    let r2 = update_recent(&v(&[]), "/x");
    assert_eq!(r2, v(&["/x"]));
}

#[test]
fn opening_twice_changes_nothing_more() {
    let once = update_recent(&v(&["/a", "/b"]), "/c");
    let twice = update_recent(&once, "/c");
    assert_eq!(once, twice);
}

#[test]
fn recent_list_is_capped() {
    let many: Vec<String> = (0..25).map(|i| format!("/p{}", i)).collect();
    let r = update_recent(&many, "/new");
    assert_eq!(r.len(), MAX_RECENT);
    assert_eq!(r[0], "/new");
    assert_eq!(r[19], "/p18");
}

#[test]
fn removing_forgets_every_copy() {
    assert_eq!(remove_recent(&v(&["/a", "/b", "/a", "/c"]), "/a"), v(&["/b", "/c"]));
    assert_eq!(remove_recent(&v(&["/a"]), "/z"), v(&["/a"]));
}

#[test]
fn last_project_check() {
    assert!(is_last_project(&Some("/a".to_string()), "/a"));
    assert!(!is_last_project(&Some("/a".to_string()), "/b"));
    assert!(!is_last_project(&None, "/a"));
}
