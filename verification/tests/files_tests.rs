use wiki_server::files::{dedup_step, DedupStep};
use wiki_server::files::{field_kind, file_upload_target, FieldKind};
use wiki_server::files::{
    classify_entry, clip_status, dedup_candidate, dedup_fallback, mentions_source, missing_destination_error,
    serve_headers, source_slug, upload_target, wiki_dir, EntryAction,
};

#[test]
fn upload_targets() {
    let flat = upload_target("/dest", "doc.pdf");
    assert_eq!((flat.dir.as_str(), flat.base_name.as_str(), flat.nested), ("/dest", "doc.pdf", false));
    let nested = upload_target("/dest", "folder/sub/doc.pdf");
    assert_eq!((nested.dir.as_str(), nested.base_name.as_str(), nested.nested), ("/dest/folder/sub", "doc.pdf", true));
    let win = upload_target("/dest", r"folder\doc.pdf");
    assert_eq!((win.dir.as_str(), win.base_name.as_str()), ("/dest/folder", "doc.pdf"));
    let lead = upload_target("/dest", "/doc.pdf");
    assert_eq!((lead.dir.as_str(), lead.base_name.as_str(), lead.nested), ("/dest", "/doc.pdf", true));
    assert_eq!(missing_destination_error(), "Missing 'destination' field in multipart upload");
}

#[test]
fn dedup_names() {
    assert_eq!(dedup_candidate("/d", "report.pdf", "20240102", 0), "/d/report.pdf");
    assert_eq!(dedup_candidate("/d", "report.pdf", "20240102", 1), "/d/report-20240102.pdf");
    assert_eq!(dedup_candidate("/d", "report.pdf", "20240102", 2), "/d/report-20240102-2.pdf");
    assert_eq!(dedup_candidate("/d", "archive.tar.gz", "20240102", 99), "/d/archive.tar-20240102-99.gz");
    assert_eq!(dedup_candidate("/d", "README", "20240102", 1), "/d/README-20240102");
    assert_eq!(dedup_candidate("/d", ".env", "20240102", 1), "/d/-20240102.env");
    assert_eq!(dedup_fallback("/d", "a.txt", "20240102", 1700000000123), "/d/a-20240102-1700000000123.txt");
}

#[test]
fn served_file_headers() {
    let h = serve_headers("/p/notes.txt");
    assert_eq!(h[0], ("Content-Type".to_string(), "text/plain".to_string()));
    assert_eq!(h[1], ("Cache-Control".to_string(), "public, max-age=3600".to_string()));
    assert_eq!(serve_headers("/p/image.png")[0].1, "image/png");
    assert_eq!(serve_headers("/p/blob")[0].1, "application/octet-stream");
}

#[test]
fn related_pages() {
    assert_eq!(source_slug("paper.v2.pdf"), "paper");
    assert_eq!(wiki_dir("/srv/proj"), "/srv/proj/wiki");
    assert_eq!(classify_entry("sub", true, "paper"), EntryAction::Descend);
    assert_eq!(classify_entry("paper-summary.md", false, "paper"), EntryAction::Related);
    assert_eq!(classify_entry("other.md", false, "paper"), EntryAction::CheckContent);
    assert_eq!(classify_entry("paper.txt", false, "paper"), EntryAction::Ignore);
    assert_eq!(classify_entry("paper.MD", false, "paper"), EntryAction::Ignore);
    assert!(mentions_source("see paper.pdf for details", "paper.pdf"));
    assert!(!mentions_source("nothing here", "paper.pdf"));
    assert_eq!(clip_status().status, "running");
}

#[test]
fn uploads_stay_below_destination() {
    for name in ["a.txt", "dir/a.txt", r"x\y\z.pdf", "/lead.txt", "deep/er/still/f"] {
        let t = upload_target("/srv/p/raw/sources", name);
        assert!(t.dir.starts_with("/srv/p/raw/sources"), "{:?}", name);
        assert!(t.dir == "/srv/p/raw/sources" || t.dir.starts_with("/srv/p/raw/sources/"), "{:?}", name);
        assert!(!t.base_name.chars().skip(1).any(|c| c == '/' || c == '\\'), "{:?}", name);
    }
}

#[test]
fn upload_form_fields() {
    assert_eq!(field_kind("destination"), FieldKind::Destination);
    assert_eq!(field_kind("file"), FieldKind::File);
    assert_eq!(
        file_upload_target("", &Some("a.txt".to_string())).err(),
        Some("Missing 'destination' field in multipart upload".to_string())
    );
    let t = file_upload_target("/d", &None).ok().unwrap();
    assert_eq!((t.dir.as_str(), t.base_name.as_str(), t.nested), ("/d", "unknown", false));
    let n = file_upload_target("/d", &Some("sub/a.txt".to_string())).ok().unwrap();
    assert_eq!((n.dir.as_str(), n.base_name.as_str(), n.nested), ("/d/sub", "a.txt", true));
}

#[test]
fn taken_names_lead_to_the_next_candidate() {
    assert_eq!(dedup_step(0, false), DedupStep::Use);
    assert_eq!(dedup_step(0, true), DedupStep::Next(1));
    assert_eq!(dedup_step(98, true), DedupStep::Next(99));
    assert_eq!(dedup_step(99, true), DedupStep::Fallback);
    assert_eq!(dedup_step(99, false), DedupStep::Use);
}
