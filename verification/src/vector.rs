//! The per-project store of page chunks and their embeddings: where it
//! lives, which page ids it accepts, and how a batch of chunks is laid out.
//! The embeddings themselves are floating-point vectors and stay with the
//! caller; the library sees only their lengths.
use vstd::prelude::*;
use crate::text::{chars_of, decimal, is_alphanumeric_char, replace_char, replace_char_str, signed_decimal,
    str_eq, u64_to_decimal, i64_to_decimal, unicode_alphanumeric};

verus! {

/// The table that holds the chunks.
pub const TABLE_V2: &'static str = "wiki_chunks_v2";

/// The longest accepted page id, in bytes.
pub const MAX_PAGE_ID_BYTES: usize = 256;

/// The body of a request that deletes a page's chunks.
#[derive(Debug)]
pub struct DeletePageBody {
    pub project_path: String,
    pub page_id: String,
}

/// The body of a request that counts the chunks of a project.
#[derive(Debug)]
pub struct CountChunksBody {
    pub project_path: String,
}

/// The answer to an upsert.
#[derive(Debug)]
pub struct UpsertResponse {
    pub success: bool,
}

/// The answer to a count.
#[derive(Debug)]
pub struct CountResponse {
    pub count: u64,
}

/// A chunk to store, with the length of its embedding in place of the
/// embedding.
#[derive(Debug, Clone)]
pub struct ChunkMeta {
    pub chunk_index: u32,
    pub chunk_text: String,
    pub heading_path: String,
    pub embedding_len: usize,
}

/// The columns of a batch of chunks, apart from the embeddings.
#[derive(Debug)]
pub struct BatchColumns {
    pub chunk_ids: Vec<String>,
    pub page_ids: Vec<String>,
    pub indexes: Vec<u32>,
    pub texts: Vec<String>,
    pub heading_paths: Vec<String>,
}

/// The store's directory: the project path with backslashes turned into
/// slashes, followed by `/.llm-wiki/lancedb`.
pub fn db_path(project_path: &str) -> (r: String)
    ensures
        r@ == replace_char(project_path@, '\\', '/') + "/.llm-wiki/lancedb"@,
{
    let mut p = replace_char_str(project_path, '\\', '/');
    p.append("/.llm-wiki/lancedb");
    p
}

/// A character allowed in a page id: alphanumeric, `-`, `_` or `.`.
pub open spec fn page_id_char_ok(c: char) -> bool {
    (if (c as int) < 128 {
        ascii_alphanumeric(c)
    } else {
        unicode_alphanumeric(c)
    }) || c == '-' || c == '_' || c == '.'
}

/// An ASCII letter of either case or an ASCII digit.
pub open spec fn ascii_alphanumeric(c: char) -> bool {
    ('0' <= c && c <= '9') || ('A' <= c && c <= 'Z') || ('a' <= c && c <= 'z')
}

/// A page id is accepted: it is not empty, has at most 256 bytes, and every
/// character is allowed.
pub open spec fn page_id_valid(page_id: &str) -> bool {
    page_id@.len() > 0 && page_id.len() <= MAX_PAGE_ID_BYTES && forall|i: int|
        0 <= i < page_id@.len() ==> page_id_char_ok(#[trigger] page_id@[i])
}

/// The refusal of a page id that is not accepted: empty or too long, else
/// with disallowed characters.
pub open spec fn page_id_refusal(page_id: &str) -> Seq<char> {
    if page_id@.len() == 0 || page_id.len() > MAX_PAGE_ID_BYTES {
        "Invalid page_id: empty or too long"@
    } else {
        "Invalid page_id: contains disallowed characters: "@ + page_id@
    }
}

/// Checks a page id (it ends up inside a filter expression, so only plain
/// characters are let through).
pub fn validate_page_id(page_id: &str) -> (r: Result<(), String>)
    ensures
        r is Ok <==> page_id_valid(page_id),
        r is Ok ==> forall|i: int| 0 <= i < page_id@.len() ==> page_id@[i] != '\'',
        r matches Err(e) ==> e@ == page_id_refusal(page_id),
        page_id@.len() > 0 && page_id.len() <= MAX_PAGE_ID_BYTES && (forall|i: int|
            0 <= i < page_id@.len() ==> ascii_alphanumeric(#[trigger] page_id@[i]) || page_id@[i] == '-'
                || page_id@[i] == '_' || page_id@[i] == '.') ==> r is Ok,
{
    if page_id.is_empty() || page_id.len() > MAX_PAGE_ID_BYTES {
        return Err(String::from_str("Invalid page_id: empty or too long"));
    }
    let cv = chars_of(page_id);
    let mut i: usize = 0;
    while i < cv.len()
        invariant
            i <= cv@.len(),
            cv@ == page_id@,
            page_id@.len() > 0,
            page_id.len() <= MAX_PAGE_ID_BYTES,
            forall|k: int| 0 <= k < i ==> page_id_char_ok(#[trigger] cv@[k]),
            forall|k: int| 0 <= k < i ==> #[trigger] cv@[k] != '\'',
        decreases cv.len() - i,
    {
        let c = cv[i];
        if !(is_alphanumeric_char(c) || c == '-' || c == '_' || c == '.') {
            assert(!page_id_char_ok(page_id@[i as int]));
            let mut m = String::from_str("Invalid page_id: contains disallowed characters: ");
            m.append(page_id);
            return Err(m);
        }
        i = i + 1;
    }
    Ok(())
}

/// Every ASCII letter (upper or lower case), every digit, and `-`, `_`,
/// `.` may stand in a page id; no other ASCII character may (so no quote,
/// space, slash or backslash reaches the filter).
pub proof fn lemma_page_id_ascii_chars(c: char)
    requires
        (c as int) < 128,
    ensures
        page_id_char_ok(c) <==> (('0' <= c && c <= '9') || ('A' <= c && c <= 'Z') || ('a' <= c && c <= 'z') || c
            == '-' || c == '_' || c == '.'),
{
}

/// The store's directory never holds a backslash.
pub proof fn lemma_db_path_uses_slashes(project_path: Seq<char>)
    ensures
        forall|i: int| 0 <= i < replace_char(project_path, '\\', '/').len() ==> replace_char(project_path, '\\', '/')[i] != '\\',
{
}

/// The filter that selects a page's chunks.
pub fn page_filter(page_id: &str) -> (r: String)
    ensures
        r@ == "page_id = '"@ + page_id@ + "'"@,
{
    let mut f = String::from_str("page_id = '");
    f.append(page_id);
    f.append("'");
    f
}

/// Whether the store holds the chunk table.
pub fn has_chunk_table(tables: &Vec<String>) -> (r: bool)
    ensures
        r == (exists|i: int| 0 <= i < tables@.len() && tables@[i]@ == TABLE_V2@),
{
    let mut i: usize = 0;
    while i < tables.len()
        invariant
            i <= tables@.len(),
            forall|k: int| 0 <= k < i ==> tables@[k]@ != TABLE_V2@,
        decreases tables.len() - i,
    {
        if str_eq(tables[i].as_str(), TABLE_V2) {
            return true;
        }
        i = i + 1;
    }
    false
}

/// The number of results a search returns: the requested limit, 10 when
/// none is given.
pub fn search_limit(limit: Option<u32>) -> (r: usize)
    ensures
        r == (match limit {
            Some(l) => l as usize,
            None => 10usize,
        }),
{
    match limit {
        Some(l) => l as usize,
        None => 10,
    }
}

/// The embedding dimension of a batch: the length of the first chunk's
/// embedding, as the store's 32-bit dimension.
pub open spec fn batch_dim(chunks: Seq<ChunkMeta>) -> i32 {
    chunks[0].embedding_len as i32
}

/// Checks an upsert before the store is opened: the page id is valid; an
/// empty batch needs no work (`None`); otherwise the first embedding must
/// not be empty and its length is the batch's dimension.
pub fn check_upsert(page_id: &str, chunks: &Vec<ChunkMeta>) -> (r: Result<Option<i32>, String>)
    ensures
        !page_id_valid(page_id) ==> (r matches Err(e) && e@ == page_id_refusal(page_id)),
        page_id_valid(page_id) && chunks@.len() == 0 ==> r == Ok::<Option<i32>, String>(None),
        page_id_valid(page_id) && chunks@.len() > 0 && batch_dim(chunks@) == 0 ==> (r matches Err(e) && e@
            == "Chunk #0 has empty embedding"@),
        page_id_valid(page_id) && chunks@.len() > 0 && batch_dim(chunks@) != 0 ==> r == Ok::<
            Option<i32>,
            String,
        >(Some(batch_dim(chunks@))),
{
    validate_page_id(page_id)?;
    if chunks.len() == 0 {
        return Ok(None);
    }
    let dim: i32 = #[verifier::truncate] (chunks[0].embedding_len as i32);
    if dim == 0 {
        return Err(String::from_str("Chunk #0 has empty embedding"));
    }
    Ok(Some(dim))
}

/// The id of a chunk: the page id, `#`, and the chunk's index.
pub open spec fn spec_chunk_id(page_id: Seq<char>, index: u32) -> Seq<char> {
    page_id + "#"@ + decimal(index as nat)
}

/// The refusal of a chunk whose embedding length differs from the batch's.
pub open spec fn dim_mismatch_msg(c: ChunkMeta, dim: i32) -> Seq<char> {
    "Chunk #"@ + decimal(c.chunk_index as nat) + " has embedding dim "@ + decimal(c.embedding_len as nat)
        + " but batch dim is "@ + signed_decimal(dim as int)
}

/// The chunk's embedding has the batch's dimension.
pub open spec fn dim_matches(c: ChunkMeta, dim: i32) -> bool {
    (c.embedding_len as i32) == dim
}

/// Row `k` of the columns holds chunk `k`: its id, the page id, its index,
/// text and heading path.
pub open spec fn column_row(cols: BatchColumns, page_id: Seq<char>, chunks: Seq<ChunkMeta>, k: int) -> bool {
    &&& cols.chunk_ids@[k]@ == spec_chunk_id(page_id, chunks[k].chunk_index)
    &&& cols.page_ids@[k]@ == page_id
    &&& cols.indexes@[k] == chunks[k].chunk_index
    &&& cols.texts@[k] == chunks[k].chunk_text
    &&& cols.heading_paths@[k] == chunks[k].heading_path
}

/// The columns of a batch: for each chunk in order, its id, the page id,
/// its index, text and heading path. The first chunk whose embedding length
/// differs from `dim` refuses the batch.
pub fn batch_columns(page_id: &str, chunks: &Vec<ChunkMeta>, dim: i32) -> (r: Result<BatchColumns, String>)
    ensures
        (forall|i: int| 0 <= i < chunks@.len() ==> dim_matches(#[trigger] chunks@[i], dim)) ==> (r matches Ok(
            cols,
        ) && cols.chunk_ids@.len() == chunks@.len() && cols.page_ids@.len() == chunks@.len()
            && cols.indexes@.len() == chunks@.len() && cols.texts@.len() == chunks@.len()
            && cols.heading_paths@.len() == chunks@.len() && forall|i: int|
            0 <= i < chunks@.len() ==> #[trigger] column_row(cols, page_id@, chunks@, i)),
        forall|k: int|
            0 <= k < chunks@.len() && !dim_matches(chunks@[k], dim) && (forall|i: int|
                0 <= i < k ==> dim_matches(#[trigger] chunks@[i], dim)) ==> (r matches Err(e) && e@
                == dim_mismatch_msg(chunks@[k], dim)),
{
    let mut cols = BatchColumns {
        chunk_ids: Vec::new(),
        page_ids: Vec::new(),
        indexes: Vec::new(),
        texts: Vec::new(),
        heading_paths: Vec::new(),
    };
    let mut i: usize = 0;
    while i < chunks.len()
        invariant
            i <= chunks@.len(),
            forall|k: int| 0 <= k < i ==> dim_matches(#[trigger] chunks@[k], dim),
            cols.chunk_ids@.len() == i,
            cols.page_ids@.len() == i,
            cols.indexes@.len() == i,
            cols.texts@.len() == i,
            cols.heading_paths@.len() == i,
            forall|k: int|
                0 <= k < i ==> #[trigger] column_row(cols, page_id@, chunks@, k),
        decreases chunks.len() - i,
    {
        let c = &chunks[i];
        let len_i32: i32 = #[verifier::truncate] (c.embedding_len as i32);
        if len_i32 != dim {
            let mut m = String::from_str("Chunk #");
            m.append(u64_to_decimal(c.chunk_index as u64).as_str());
            m.append(" has embedding dim ");
            m.append(u64_to_decimal(c.embedding_len as u64).as_str());
            m.append(" but batch dim is ");
            m.append(i64_to_decimal(dim as i64).as_str());
            proof {
                assert forall|k: int|
                    0 <= k < chunks@.len() && !dim_matches(chunks@[k], dim) && (forall|j: int|
                        0 <= j < k ==> dim_matches(#[trigger] chunks@[j], dim)) implies k == i by {
                    if k < i {
                    }
                    if k > i {
                        assert(dim_matches(chunks@[i as int], dim));
                    }
                }
            }
            return Err(m);
        }
        let mut id = String::from_str(page_id);
        id.append("#");
        id.append(u64_to_decimal(c.chunk_index as u64).as_str());
        assert(id@ == spec_chunk_id(page_id@, c.chunk_index));
        let pid = String::from_str(page_id);
        let text = c.chunk_text.clone();
        let heading = c.heading_path.clone();
        let ghost before = cols;
        let ghost (o1, o2, o3, o4, o5) = (
            cols.chunk_ids@,
            cols.page_ids@,
            cols.indexes@,
            cols.texts@,
            cols.heading_paths@,
        );
        cols.chunk_ids.push(id);
        cols.page_ids.push(pid);
        cols.indexes.push(c.chunk_index);
        cols.texts.push(text);
        cols.heading_paths.push(heading);
        assert(cols.chunk_ids@ == o1.push(id));
        assert(cols.page_ids@ == o2.push(pid));
        assert(cols.indexes@ == o3.push(c.chunk_index));
        assert(cols.texts@ == o4.push(text));
        assert(cols.heading_paths@ == o5.push(heading));
        assert forall|k: int| 0 <= k < i + 1 implies #[trigger] column_row(cols, page_id@, chunks@, k) by {
            if k < i {
                assert(column_row(before, page_id@, chunks@, k));
                assert(cols.chunk_ids@[k] == o1[k]);
                assert(cols.page_ids@[k] == o2[k]);
                assert(cols.indexes@[k] == o3[k]);
                assert(cols.texts@[k] == o4[k]);
                assert(cols.heading_paths@[k] == o5[k]);
            }
        }
        i = i + 1;
    }
    Ok(cols)
}

} // verus!
