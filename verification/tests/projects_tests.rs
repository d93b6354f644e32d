use wiki_server::projects::{assign_project_step, assign_target_step, orphan_updates, ProjectUpdate};
use std::path::Path;
use wiki_server::auth::AuthUser;
use wiki_server::projects::{
    check_named_project, check_project_path, directory_exists_error, is_listed_before, needs_move,
    project_for_directory, project_listing, project_name_for_path, project_not_found_error, project_record,
    project_root, project_scope, relocated_path, sort_projects, unseen_rows, DiskProject, OwnedProject,
    ProjectInfo, ProjectScope, WikiProject,
};

fn info(name: &str, t: Option<i64>) -> ProjectInfo {
    ProjectInfo {
        id: None,
        name: name.to_string(),
        path: format!("/p/{}", name),
        has_wiki: true,
        last_opened_at: t,
        owner: None,
    }
}

fn wp(id: &str, name: &str, path: &str) -> WikiProject {
    WikiProject { id: id.to_string(), name: name.to_string(), path: path.to_string() }
}

fn names(v: &[ProjectInfo]) -> Vec<String> {
    v.iter().map(|p| p.name.clone()).collect()
}

#[test]
fn scope_by_role() {
    assert!(matches!(project_scope(&AuthUser::service_admin()), ProjectScope::All));
    let u = AuthUser::from_claims("u1".to_string(), "alice".to_string(), "user".to_string());
    assert!(matches!(project_scope(&u), ProjectScope::OwnedBy(id) if id == "u1"));
}

fn person(id: &str) -> AuthUser {
    AuthUser::from_claims(id.to_string(), format!("name-{}", id), "user".to_string())
}

#[test]
fn new_project_directory() {
    let u1 = person("u1");
    assert_eq!(project_root(&u1, &None, "/srv/projects", "notes"), Ok("/srv/projects/u1/notes".to_string()));
    assert_eq!(
        project_root(&u1, &Some("   ".to_string()), "/srv/projects", "notes"),
        Ok("/srv/projects/u1/notes".to_string())
    );
    assert_eq!(
        project_root(&u1, &Some("/srv/projects/u1/team".to_string()), "/srv/projects", "notes"),
        Ok("/srv/projects/u1/team/notes".to_string())
    );
    assert_eq!(
        project_root(&u1, &Some("/custom".to_string()), "/srv/projects", "notes"),
        Err("Access denied: path '/custom/notes' is outside your project directory".to_string())
    );
    assert_eq!(
        project_root(&u1, &None, "/srv/projects", "/etc"),
        Err("Access denied: path '/etc' is outside your project directory".to_string())
    );
    let boss = AuthUser::from_claims("b".to_string(), "boss".to_string(), "admin".to_string());
    assert_eq!(
        project_root(&boss, &Some("rel/dir".to_string()), "/x", "n"),
        Ok(Path::new("rel/dir").join("n").to_string_lossy().to_string())
    );
    assert_eq!(directory_exists_error("/a/b"), "Directory already exists: '/a/b'");
}

#[test]
fn records_prefer_existing_row() {
    let existing = wp("old-id", "Old", "/p/x");
    let r = project_record(Some(existing.clone()), "new".to_string(), "New".to_string(), "/p/y".to_string());
    assert_eq!(r.id, "old-id");
    assert_eq!(r.name, "Old");
    let n = project_record(None, "new".to_string(), "New".to_string(), "/p/y".to_string());
    assert_eq!((n.id.as_str(), n.name.as_str(), n.path.as_str()), ("new", "New", "/p/y"));
    let fresh = project_for_directory(None, "N".to_string(), "/p/n".to_string());
    assert_eq!(fresh.name, "N");
    assert_eq!(fresh.id.len(), 36);
    for (i, c) in fresh.id.chars().enumerate() {
        if [8, 13, 18, 23].contains(&i) {
            assert_eq!(c, '-');
        } else {
            assert!(c.is_ascii_hexdigit() && !c.is_ascii_uppercase());
        }
    }
    assert_eq!(fresh.id.as_bytes()[14], b'4');
    assert!(b"89ab".contains(&fresh.id.as_bytes()[19]));
    let other = project_for_directory(None, "N".to_string(), "/p/n".to_string());
    assert_ne!(fresh.id, other.id);
    assert_eq!(project_for_directory(Some(existing), "N".to_string(), "/p/n".to_string()).id, "old-id");
}

#[test]
fn open_checks() {
    assert_eq!(check_named_project("w", false, false, false), Err("Project 'w' does not exist".to_string()));
    assert_eq!(check_named_project("w", true, false, false), Err("'w' is not a directory".to_string()));
    assert_eq!(
        check_named_project("w", true, true, false),
        Err("'w' is not a valid wiki project (missing wiki folder)".to_string())
    );
    assert_eq!(check_named_project("w", true, true, true), Ok(()));
    assert_eq!(check_project_path("/w", false, true, true), Err("Path does not exist: '/w'".to_string()));
    assert_eq!(check_project_path("/w", true, false, true), Err("Path is not a directory: '/w'".to_string()));
    assert_eq!(
        check_project_path("/w", true, true, false),
        Err("Not a valid wiki project (missing wiki folder): '/w'".to_string())
    );
    assert_eq!(check_project_path("/w", true, true, true), Ok(()));
    assert_eq!(project_not_found_error("w"), "Project 'w' not found");
}

#[test]
fn names_and_moves() {
    assert_eq!(project_name_for_path("/srv/p/my-wiki"), "my-wiki");
    assert_eq!(project_name_for_path("/"), "Unknown");
    assert_eq!(relocated_path("/srv/projects", "u2", "/old/place/wiki1"), "/srv/projects/u2/wiki1");
    assert_eq!(relocated_path("/srv/projects", "u2", "/"), "/srv/projects/u2/unknown");
    assert!(needs_move(true, "/a", "/b"));
    assert!(!needs_move(true, "/a", "/a"));
    assert!(!needs_move(false, "/a", "/b"));
    assert!(!needs_move(true, "/srv/p/u2/wiki/", "/srv/p/u2/wiki"));
    assert!(!needs_move(true, "/srv//p/./u2/wiki", "/srv/p/u2/wiki"));
}

#[test]
fn listing_order_matches_sort_by() {
    let items = vec![
        info("zeta", None),
        info("alpha", Some(5)),
        info("beta", None),
        info("gamma", Some(9)),
        info("delta", Some(5)),
        info("Alpha", None),
    ];
    let sorted = sort_projects(&items);
    let mut expected = items.clone();
    expected.sort_by(|a, b| match (a.last_opened_at, b.last_opened_at) {
        (Some(x), Some(y)) => y.cmp(&x),
        (Some(_), None) => std::cmp::Ordering::Less,
        (None, Some(_)) => std::cmp::Ordering::Greater,
        (None, None) => a.name.cmp(&b.name),
    });
    assert_eq!(names(&sorted), names(&expected));
    assert_eq!(names(&sorted), vec!["gamma", "alpha", "delta", "Alpha", "beta", "zeta"]);
    assert!(is_listed_before(&info("a", Some(2)), &info("b", Some(1))));
    assert!(is_listed_before(&info("z", Some(0)), &info("a", None)));
    assert!(!is_listed_before(&info("a", None), &info("a", None)));
}

#[test]
fn listing_merges_disk_and_database() {
    let disk = vec![
        DiskProject { name: "one".to_string(), path: "/p/one".to_string(), has_wiki: true },
        DiskProject { name: "two".to_string(), path: "/p/two".to_string(), has_wiki: false },
    ];
    let rows = vec![
        OwnedProject {
            project: wp("id1", "one", "/p/one"),
            last_opened_at: 10,
            owner: Some("alice".to_string()),
            has_wiki: true,
        },
        OwnedProject { project: wp("id3", "gone", "/p/gone"), last_opened_at: 20, owner: None, has_wiki: false },
    ];
    assert_eq!(unseen_rows(&disk, &rows), vec![false, true]);
    let all = project_listing(&disk, &rows, true);
    assert_eq!(names(&all), vec!["gone", "one", "two"]);
    assert_eq!(all[0].id.as_deref(), Some("id3"));
    assert!(!all[0].has_wiki);
    assert_eq!(all[1].owner.as_deref(), Some("alice"));
    assert_eq!(all[1].last_opened_at, Some(10));
    assert_eq!(all[2].id, None);
    let disk_only = project_listing(&disk, &rows, false);
    assert_eq!(names(&disk_only), vec!["one", "two"]);
}

#[test]
fn created_and_given_projects_are_accessible() {
    let u = AuthUser::from_claims("u42".to_string(), "carol".to_string(), "user".to_string());
    for custom in [None, Some("".to_string()), Some("/srv/projects/u42/x".to_string()), Some("/tmp".to_string())] {
        if let Ok(root) = project_root(&u, &custom, "/srv/projects", "notes") {
            assert!(root.starts_with("/srv/projects/u42/"), "{:?}", custom);
            assert!(wiki_server::projects::validate_user_path(&u, &root, "/srv/projects").is_ok());
        }
    }
    let root = project_root(&u, &None, "/srv/projects", "notes").unwrap();
    assert!(wiki_server::projects::validate_user_path(&u, &root, "/srv/projects").is_ok());
    let moved = relocated_path("/srv/projects", "u42", "/elsewhere/old-wiki");
    assert!(wiki_server::projects::validate_user_path(&u, &moved, "/srv/projects").is_ok());
    let other = relocated_path("/srv/projects", "u4", "/elsewhere/old-wiki");
    assert!(wiki_server::projects::validate_user_path(&u, &other, "/srv/projects").is_err());
}

#[test]
fn administrator_search_by_name() {
    let dirs = vec!["/srv/projects/u1".to_string(), "/srv/projects/u2/".to_string()];
    assert_eq!(
        wiki_server::projects::admin_candidates(&dirs, "notes"),
        vec!["/srv/projects/u1/notes".to_string(), "/srv/projects/u2/notes".to_string()]
    );
    assert_eq!(wiki_server::projects::first_usable(&vec![false, true, true]), Some(1));
    assert_eq!(wiki_server::projects::first_usable(&vec![false, false]), None);
    assert_eq!(wiki_server::projects::first_usable(&vec![]), None);
}

#[test]
fn registry_updates_put_path_before_owner() {
    fn shape(us: &[ProjectUpdate]) -> Vec<String> {
        us.iter()
            .map(|u| match u {
                ProjectUpdate::SetPath { project_id, path } => format!("path {} {}", project_id, path),
                ProjectUpdate::SetOwner { path, user_id } => format!("owner {} {}", path, user_id),
            })
            .collect()
    }
    assert_eq!(
        shape(&orphan_updates("p1", "/old/w", "/srv/a1/w", true, "a1")),
        vec!["path p1 /srv/a1/w", "owner /srv/a1/w a1"]
    );
    assert_eq!(shape(&orphan_updates("p1", "/old/w", "/srv/a1/w", false, "a1")), vec!["owner /old/w a1"]);

    assert_eq!(assign_target_step(None).err(), Some("Target user not found".to_string()));
    let target = wiki_server::auth::User {
        id: "u9".to_string(),
        username: "dan".to_string(),
        role: "user".to_string(),
        created_at: 1,
    };
    let t = assign_target_step(Some(target)).unwrap();
    assert_eq!(assign_project_step("/srv", &t, None).err(), Some("Project not found".to_string()));
    let rel = assign_project_step("/srv", &t, Some(wp("p7", "w", "/old/place/w"))).ok().unwrap();
    assert_eq!(rel.new_path, "/srv/u9/w");
    assert_eq!(shape(&rel.updates), vec!["path p7 /srv/u9/w", "owner /srv/u9/w u9"]);
}

#[test]
fn path_equality_agrees_with_std_on_all_short_paths() {
    let mut paths = vec![String::new()];
    let mut frontier = vec![String::new()];
    for _ in 0..4 {
        let mut next = Vec::new();
        for p in &frontier {
            for c in ['/', '.', 'a'] {
                let mut q = p.clone();
                q.push(c);
                next.push(q);
            }
        }
        paths.extend(next.iter().cloned());
        frontier = next;
    }
    for a in &paths {
        for b in &paths {
            assert_eq!(needs_move(true, a, b), Path::new(a) != Path::new(b), "{:?} {:?}", a, b);
        }
    }
}
