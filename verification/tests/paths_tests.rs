use std::path::Path;
use wiki_server::paths::{expand_home, expand_home_with, file_name_or, is_markdown_name, join};

#[test]
fn join_matches_std_path_join() {
    for (a, b) in [
        ("/srv/projects", "u1"),
        ("/srv/projects/", "u1"),
        ("", "rel"),
        ("/base", "/abs"),
        ("/base", ""),
        ("relative/dir", "x/y"),
    ] {
        assert_eq!(join(a, b), Path::new(a).join(b).to_string_lossy(), "{:?} {:?}", a, b);
    }
}

#[test]
fn expand_home_matches_std_strip_prefix() {
    let home = "/home/me";
    for p in ["~", "~/", "~/wiki", "~//a/./b/", "~/./x/.", "/abs/path", "rel", "~user/x", "./~"] {
        let expected = if Path::new(p).starts_with("~") {
            Path::new(home).join(Path::new(p).strip_prefix("~").unwrap()).to_string_lossy().to_string()
        } else {
            p.to_string()
        };
        assert_eq!(expand_home_with(p, home), expected, "{:?}", p);
    }
}

#[test]
fn expand_home_leaves_other_paths() {
    assert_eq!(expand_home("/var/data"), "/var/data");
    let e = expand_home("~/wiki-projects");
    assert!(e.ends_with("wiki-projects"));
    assert!(!e.starts_with('~'));
}

#[test]
fn markdown_extension_matches_std() {
    for n in ["page.md", "page.MD", ".md", "a.b.md", "md", "..", "x.md.txt", "note.", "a.md"] {
        let std_md = Path::new(n).extension().map_or(false, |e| e == "md");
        assert_eq!(is_markdown_name(n), std_md, "{:?}", n);
    }
}

#[test]
fn file_names() {
    for p in ["/a/b/c.txt", "/a/b/", "/", "a/..", "a/.", "plain", "", "./x//"] {
        let expected = Path::new(p).file_name().map_or("none".to_string(), |n| n.to_string_lossy().into_owned());
        assert_eq!(file_name_or(p, "none"), expected, "{:?}", p);
    }
    assert_eq!(file_name_or("/a/b/c.txt", "none"), "c.txt");
    assert_eq!(file_name_or("a/..", "none"), "none");
    assert_eq!(file_name_or("/", "unknown"), "unknown");
    assert_eq!(file_name_or("/srv/p/wiki-one", "unknown"), "wiki-one");
}

fn all_paths(max: usize) -> Vec<String> {
    let mut out = vec![String::new()];
    let mut frontier = vec![String::new()];
    for _ in 0..max {
        let mut next = Vec::new();
        for p in &frontier {
            for c in ['/', '.', 'a'] {
                let mut q = p.clone();
                q.push(c);
                next.push(q);
            }
        }
        out.extend(next.iter().cloned());
        frontier = next;
    }
    out
}

#[test]
fn file_names_agree_with_std_on_all_short_paths() {
    for p in all_paths(6) {
        let expected = Path::new(&p).file_name().map_or("<none>".to_string(), |n| n.to_string_lossy().into_owned());
        assert_eq!(file_name_or(&p, "<none>"), expected, "{:?}", p);
    }
}

#[test]
fn home_fallback_is_root() {
    assert_eq!(wiki_server::paths::home_or_root(None), "/");
    assert_eq!(wiki_server::paths::home_or_root(Some("/home/z".to_string())), "/home/z");
}
