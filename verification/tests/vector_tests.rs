use wiki_server::vector::{
    batch_columns, check_upsert, db_path, has_chunk_table, page_filter, search_limit, validate_page_id, ChunkMeta,
    TABLE_V2,
};

fn chunk(i: u32, text: &str, len: usize) -> ChunkMeta {
    ChunkMeta { chunk_index: i, chunk_text: text.to_string(), heading_path: format!("H{}", i), embedding_len: len }
}

#[test]
fn store_location() {
    assert_eq!(db_path("/srv/p/wiki"), "/srv/p/wiki/.llm-wiki/lancedb");
    assert_eq!(db_path(r"C:\Users\me\wiki"), "C:/Users/me/wiki/.llm-wiki/lancedb");
}

#[test]
fn page_ids() {
    assert_eq!(validate_page_id("concepts/rust"), Err("Invalid page_id: contains disallowed characters: concepts/rust".to_string()));
    assert_eq!(validate_page_id("rust-lang_notes.v2"), Ok(()));
    assert_eq!(validate_page_id("übersicht"), Ok(()));
    assert_eq!(validate_page_id(""), Err("Invalid page_id: empty or too long".to_string()));
    assert_eq!(validate_page_id(&"a".repeat(256)), Ok(()));
    assert_eq!(validate_page_id(&"a".repeat(257)), Err("Invalid page_id: empty or too long".to_string()));
    assert_eq!(validate_page_id(&"é".repeat(129)), Err("Invalid page_id: empty or too long".to_string()));
    assert!(validate_page_id("x' OR '1'='1").is_err());
    assert!(validate_page_id("a b").is_err());
}

#[test]
fn filters_and_tables() {
    assert_eq!(page_filter("intro"), "page_id = 'intro'");
    assert!(has_chunk_table(&vec!["other".to_string(), TABLE_V2.to_string()]));
    assert!(!has_chunk_table(&vec!["wiki_chunks".to_string()]));
    assert_eq!(search_limit(None), 10);
    assert_eq!(search_limit(Some(3)), 3);
}

#[test]
fn upsert_checks() {
    assert_eq!(check_upsert("p", &vec![]), Ok(None));
    assert_eq!(check_upsert("p", &vec![chunk(0, "t", 0)]), Err("Chunk #0 has empty embedding".to_string()));
    assert_eq!(check_upsert("p", &vec![chunk(0, "t", 1536), chunk(1, "u", 3)]), Ok(Some(1536)));
    assert_eq!(check_upsert("bad id", &vec![]), Err("Invalid page_id: contains disallowed characters: bad id".to_string()));
}

#[test]
fn batch_layout() {
    let chunks = vec![chunk(0, "alpha", 4), chunk(7, "beta", 4)];
    let cols = batch_columns("page", &chunks, 4).unwrap();
    assert_eq!(cols.chunk_ids, vec!["page#0".to_string(), "page#7".to_string()]);
    assert_eq!(cols.page_ids, vec!["page".to_string(), "page".to_string()]);
    assert_eq!(cols.indexes, vec![0, 7]);
    assert_eq!(cols.texts, vec!["alpha".to_string(), "beta".to_string()]);
    assert_eq!(cols.heading_paths, vec!["H0".to_string(), "H7".to_string()]);
    let bad = vec![chunk(0, "a", 4), chunk(3, "b", 5), chunk(4, "c", 6)];
    assert_eq!(
        batch_columns("page", &bad, 4).err(),
        Some("Chunk #3 has embedding dim 5 but batch dim is 4".to_string())
    );
}

#[test]
fn upsert_refuses_with_the_page_id_message() {
    assert_eq!(check_upsert("", &vec![]), Err("Invalid page_id: empty or too long".to_string()));
    assert_eq!(
        check_upsert("a/b", &vec![chunk(0, "t", 3)]),
        Err("Invalid page_id: contains disallowed characters: a/b".to_string())
    );
    assert_eq!(check_upsert(&"x".repeat(300), &vec![]), validate_page_id(&"x".repeat(300)).map(|_| None));
}
