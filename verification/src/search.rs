//! Web search through DuckDuckGo's HTML pages: the request URLs, and how
//! result links and snippets are read out of a page.
use vstd::prelude::*;
use crate::paths::subvec;
use crate::text::{chars_of, contains, occurs_at, contains_str, find, find_chars, is_prefix, replace_all, replace_str, starts_with,
    string_of, trim_str, trim_ws, lemma_replace_no_longer, lemma_trim_idempotent,
    lemma_replace_absent, lemma_replace_after_plain, lemma_replace_hit, lemma_replace_miss, lemma_replace_utf8_no_longer,
    lemma_trim_utf8_no_longer};

verus! {

/// The HTML endpoint, before the encoded query.
pub const HTML_SEARCH_BASE: &'static str = "https://html.duckduckgo.com/html/?q=";

/// The Lite endpoint, before the encoded query.
pub const LITE_SEARCH_BASE: &'static str = "https://lite.duckduckgo.com/lite/?q=";

/// Result links of the HTML page: group 1 is the link, group 2 the title.
pub const HTML_LINK_PATTERN: &'static str = r#"<a[^>]*class="result__a"[^>]*href="([^"]+)"[^>]*>([^<]+)</a>"#;

/// Snippets of the HTML page, as links.
pub const HTML_SNIPPET_PATTERN: &'static str = r#"<a[^>]*class="result__snippet"[^>]*>([^<]+)</a>"#;

/// Snippets of the HTML page, as spans (the fallback).
pub const HTML_SNIPPET_SPAN_PATTERN: &'static str = r#"<span[^>]*class="result__snippet"[^>]*>([^<]+)</span>"#;

/// Result links of the Lite page: group 1 is the link, group 2 the title.
pub const LITE_LINK_PATTERN: &'static str = r#"<a[^>]*rel="nofollow"[^>]*href="([^"]+)"[^>]*>([^<]+)</a>"#;

/// Snippets of the Lite page.
pub const LITE_SNIPPET_PATTERN: &'static str = r#"<td[^>]*class="result-snippet"[^>]*>([^<]*(?:<[^/][^>]*>[^<]*</[^>]*>[^<]*)*)</td>"#;

/// A search request.
#[derive(Debug)]
pub struct SearchQuery {
    pub query: String,
    pub limit: usize,
}

/// One search result.
#[derive(Debug, Clone)]
pub struct SearchResult {
    pub title: String,
    pub url: String,
    pub snippet: String,
}

/// The answer to a search request.
#[derive(Debug)]
pub struct SearchResponse {
    pub results: Vec<SearchResult>,
    pub error: Option<String>,
}

/// The number of results asked for when a request names none.
pub fn default_limit() -> (r: usize)
    ensures
        r == 5,
{
    5
}

// ---------------------------------------------------------------------------
// HTML entities
// ---------------------------------------------------------------------------

/// The text with the entities `&amp;`, `&lt;`, `&gt;`, `&quot;` and `&nbsp;`
/// replaced, in that order, and surrounding whitespace trimmed.
pub open spec fn spec_clean_html(s: Seq<char>) -> Seq<char> {
    trim_ws(
        replace_all(
            replace_all(
                replace_all(replace_all(replace_all(s, "&amp;"@, "&"@), "&lt;"@, "<"@), "&gt;"@, ">"@),
                "&quot;"@,
                "\""@,
            ),
            "&nbsp;"@,
            " "@,
        ),
    )
}

proof fn lemma_ascii_no_longer(p: Seq<char>, r: Seq<char>)
    requires
        vstd::utf8::is_ascii_chars(p),
        vstd::utf8::is_ascii_chars(r),
        r.len() <= p.len(),
    ensures
        vstd::utf8::encode_utf8(r).len() <= vstd::utf8::encode_utf8(p).len(),
{
    vstd::utf8::is_ascii_chars_encode_utf8(p);
    vstd::utf8::is_ascii_chars_encode_utf8(r);
}

/// Cleaning never lengthens a text, in characters or in UTF-8 bytes, and
/// its result is already trimmed.
pub proof fn lemma_clean_html_shrinks(text: Seq<char>)
    ensures
        spec_clean_html(text).len() <= text.len(),
        vstd::utf8::encode_utf8(spec_clean_html(text)).len() <= vstd::utf8::encode_utf8(text).len(),
        trim_ws(spec_clean_html(text)) == spec_clean_html(text),
{
    reveal_strlit("&amp;");
    reveal_strlit("&");
    reveal_strlit("&lt;");
    reveal_strlit("<");
    reveal_strlit("&gt;");
    reveal_strlit(">");
    reveal_strlit("&quot;");
    reveal_strlit("\"");
    reveal_strlit("&nbsp;");
    reveal_strlit(" ");
    let a = replace_all(text, "&amp;"@, "&"@);
    let b = replace_all(a, "&lt;"@, "<"@);
    let c = replace_all(b, "&gt;"@, ">"@);
    let d = replace_all(c, "&quot;"@, "\""@);
    let e = replace_all(d, "&nbsp;"@, " "@);
    lemma_replace_no_longer(text, "&amp;"@, "&"@);
    lemma_replace_no_longer(a, "&lt;"@, "<"@);
    lemma_replace_no_longer(b, "&gt;"@, ">"@);
    lemma_replace_no_longer(c, "&quot;"@, "\""@);
    lemma_replace_no_longer(d, "&nbsp;"@, " "@);
    lemma_trim_idempotent(e);
    lemma_ascii_no_longer("&amp;"@, "&"@);
    lemma_ascii_no_longer("&lt;"@, "<"@);
    lemma_ascii_no_longer("&gt;"@, ">"@);
    lemma_ascii_no_longer("&quot;"@, "\""@);
    lemma_ascii_no_longer("&nbsp;"@, " "@);
    lemma_replace_utf8_no_longer(text, "&amp;"@, "&"@);
    lemma_replace_utf8_no_longer(a, "&lt;"@, "<"@);
    lemma_replace_utf8_no_longer(b, "&gt;"@, ">"@);
    lemma_replace_utf8_no_longer(c, "&quot;"@, "\""@);
    lemma_replace_utf8_no_longer(d, "&nbsp;"@, " "@);
    lemma_trim_utf8_no_longer(e);
}

/// A text that is already trimmed and holds no `&` comes back unchanged.
pub proof fn lemma_clean_html_keeps_plain(text: Seq<char>)
    requires
        forall|i: int| 0 <= i < text.len() ==> text[i] != '&',
        trim_ws(text) == text,
    ensures
        spec_clean_html(text) == text,
{
    reveal_strlit("&amp;");
    reveal_strlit("&lt;");
    reveal_strlit("&gt;");
    reveal_strlit("&quot;");
    reveal_strlit("&nbsp;");
    lemma_replace_absent(text, "&amp;"@, "&"@);
    lemma_replace_absent(text, "&lt;"@, "<"@);
    lemma_replace_absent(text, "&gt;"@, ">"@);
    lemma_replace_absent(text, "&quot;"@, "\""@);
    lemma_replace_absent(text, "&nbsp;"@, " "@);
}

/// The entities that cleaning decodes, in the order it decodes them, each
/// with the character it stands for.
pub open spec fn html_entity(k: int) -> (Seq<char>, Seq<char>) {
    if k == 0 {
        ("&amp;"@, "&"@)
    } else if k == 1 {
        ("&lt;"@, "<"@)
    } else if k == 2 {
        ("&gt;"@, ">"@)
    } else if k == 3 {
        ("&quot;"@, "\""@)
    } else {
        ("&nbsp;"@, " "@)
    }
}

/// No `&` occurs in `s`.
pub open spec fn no_ampersand(s: Seq<char>) -> bool {
    forall|i: int| 0 <= i < s.len() ==> s[i] != '&'
}

proof fn lemma_entities_shape()
    ensures
        forall|j: int|
            0 <= j < 5 ==> {
                let p = #[trigger] html_entity(j);
                &&& p.0.len() >= 4
                &&& p.0[0] == '&'
                &&& p.0[p.0.len() - 1] == ';'
                &&& forall|i: int| 1 <= i < p.0.len() ==> p.0[i] != '&' && p.0[i] != ';' || i == p.0.len() - 1
                &&& p.1.len() == 1
                &&& (j > 0 ==> p.1[0] != '&')
                &&& (j == 0 ==> p.1 == seq!['&'])
            },
        forall|j: int, k: int|
            0 <= j < 5 && 0 <= k < 5 && j != k ==> #[trigger] html_entity(j).0[1] != #[trigger] html_entity(k).0[1],
{
    reveal_strlit("&amp;");
    reveal_strlit("&");
    reveal_strlit("&lt;");
    reveal_strlit("<");
    reveal_strlit("&gt;");
    reveal_strlit(">");
    reveal_strlit("&quot;");
    reveal_strlit("\"");
    reveal_strlit("&nbsp;");
    reveal_strlit(" ");
    assert(seq!['&'] =~= "&"@);
}

/// The text after the first `j` decoding passes, when the text is
/// `a + entity k + b`.
pub open spec fn entity_stage(a: Seq<char>, b: Seq<char>, k: int, j: int) -> Seq<char> {
    if j <= k {
        a + html_entity(k).0 + b
    } else {
        a + html_entity(k).1 + b
    }
}

proof fn lemma_pass_keeps(a: Seq<char>, e: Seq<char>, b: Seq<char>, p: Seq<char>, r: Seq<char>)
    requires
        p.len() > 0,
        p[0] == '&',
        e.len() > 0,
        no_ampersand(a),
        no_ampersand(b),
        forall|i: int| 1 <= i < e.len() ==> e[i] != '&',
        !is_prefix(p, e + b),
    ensures
        replace_all(a + e + b, p, r) == a + e + b,
{
    assert(a + e + b =~= a + (e + b));
    lemma_replace_after_plain(a, e + b, p, r);
    assert forall|i: int| 1 <= i < (e + b).len() implies (e + b)[i] != p[0] by {
        if i >= e.len() {
            assert((e + b)[i] == b[i - e.len()]);
        }
    }
    lemma_replace_miss(e + b, p, r);
}

proof fn lemma_pass_hits(a: Seq<char>, b: Seq<char>, p: Seq<char>, r: Seq<char>)
    requires
        p.len() > 0,
        p[0] == '&',
        no_ampersand(a),
        no_ampersand(b),
    ensures
        replace_all(a + p + b, p, r) == a + r + b,
{
    assert(a + p + b =~= a + (p + b));
    lemma_replace_after_plain(a, p + b, p, r);
    lemma_replace_hit(b, p, r);
    assert(a + (r + b) =~= a + r + b);
}

proof fn lemma_second_char_blocks(e: Seq<char>, b: Seq<char>, p: Seq<char>)
    requires
        e.len() >= 2,
        p.len() >= 2,
        e[1] != p[1],
    ensures
        !is_prefix(p, e + b),
{
    if is_prefix(p, e + b) {
        assert((e + b).subrange(0, p.len() as int)[1] == (e + b)[1]);
    }
}

proof fn lemma_semicolon_blocks(b: Seq<char>, p: Seq<char>)
    requires
        p.len() >= 2,
        p[p.len() - 1] == ';',
        forall|i: int| 0 <= i < b.len() ==> b[i] != ';',
    ensures
        !is_prefix(p, seq!['&'] + b),
{
    let t = seq!['&'] + b;
    if is_prefix(p, t) {
        let n = p.len() - 1;
        assert(t.subrange(0, p.len() as int)[n] == t[n]);
        assert(t[n] == b[n - 1]);
    }
}

proof fn lemma_one_pass(a: Seq<char>, b: Seq<char>, k: int, j: int)
    requires
        0 <= k < 5,
        0 <= j < 5,
        no_ampersand(a),
        no_ampersand(b),
        k == 0 ==> forall|i: int| 0 <= i < b.len() ==> b[i] != ';',
    ensures
        replace_all(entity_stage(a, b, k, j), html_entity(j).0, html_entity(j).1) == entity_stage(a, b, k, j + 1),
{
    lemma_entities_shape();
    let e = html_entity(k).0;
    let c = html_entity(k).1;
    let p = html_entity(j).0;
    let r = html_entity(j).1;
    assert(p.len() >= 4 && p[0] == '&' && p[p.len() - 1] == ';');
    assert(e.len() >= 4 && e[0] == '&');
    assert forall|i: int| 1 <= i < e.len() implies e[i] != '&' by {
        assert(e[i] != '&' && e[i] != ';' || i == e.len() - 1);
    }
    if j < k {
        assert(html_entity(j).0[1] != html_entity(k).0[1]);
        lemma_second_char_blocks(e, b, p);
        lemma_pass_keeps(a, e, b, p, r);
    } else if j == k {
        lemma_pass_hits(a, b, p, r);
    } else if k > 0 {
        let t = a + c + b;
        assert(c.len() == 1 && c[0] != '&');
        assert forall|i: int| 0 <= i < t.len() implies t[i] != p[0] by {
            if i < a.len() {
            } else if i == a.len() {
                assert(t[i] == c[0]);
            } else {
                assert(t[i] == b[i - a.len() - 1]);
            }
        }
        lemma_replace_absent(t, p, r);
    } else {
        assert(c == seq!['&']);
        lemma_semicolon_blocks(b, p);
        lemma_pass_keeps(a, c, b, p, r);
    }
}

/// Cleaning decodes an entity into the character it stands for, in place:
/// a text `a + entity + b` with no other `&` comes back as
/// `a + character + b`, trimmed (after `&amp;`, `b` must hold no `;`, since
/// the `&` it yields could start another entity).
pub proof fn lemma_clean_html_decodes_entity(a: Seq<char>, b: Seq<char>, k: int)
    requires
        0 <= k < 5,
        no_ampersand(a),
        no_ampersand(b),
        k == 0 ==> forall|i: int| 0 <= i < b.len() ==> b[i] != ';',
    ensures
        spec_clean_html(a + html_entity(k).0 + b) == trim_ws(a + html_entity(k).1 + b),
{
    lemma_one_pass(a, b, k, 0);
    lemma_one_pass(a, b, k, 1);
    lemma_one_pass(a, b, k, 2);
    lemma_one_pass(a, b, k, 3);
    lemma_one_pass(a, b, k, 4);
    reveal_strlit("&amp;");
    reveal_strlit("&");
    reveal_strlit("&lt;");
    reveal_strlit("<");
    reveal_strlit("&gt;");
    reveal_strlit(">");
    reveal_strlit("&quot;");
    reveal_strlit("\"");
    reveal_strlit("&nbsp;");
    reveal_strlit(" ");
    assert(entity_stage(a, b, k, 0) == a + html_entity(k).0 + b);
    assert(entity_stage(a, b, k, 5) == a + html_entity(k).1 + b);
}

/// `&nbsp;` between texts without `&` becomes a space, and `&lt;` a `<`.
pub proof fn lemma_clean_html_nbsp_and_lt(a: Seq<char>, b: Seq<char>)
    requires
        no_ampersand(a),
        no_ampersand(b),
    ensures
        spec_clean_html(a + "&nbsp;"@ + b) == trim_ws(a + seq![' '] + b),
        spec_clean_html(a + "&lt;"@ + b) == trim_ws(a + seq!['<'] + b),
{
    lemma_clean_html_decodes_entity(a, b, 4);
    lemma_clean_html_decodes_entity(a, b, 1);
    reveal_strlit(" ");
    reveal_strlit("<");
    assert(" "@ =~= seq![' ']);
    assert("<"@ =~= seq!['<']);
}

/// The text with its common HTML entities decoded and trimmed.
pub fn clean_html(text: &str) -> (r: String)
    ensures
        r@ == spec_clean_html(text@),
{
    proof {
        reveal_strlit("&amp;");
        reveal_strlit("&lt;");
        reveal_strlit("&gt;");
        reveal_strlit("&quot;");
        reveal_strlit("&nbsp;");
    }
    let a = replace_str(text, "&amp;", "&");
    let b = replace_str(a.as_str(), "&lt;", "<");
    let c = replace_str(b.as_str(), "&gt;", ">");
    let d = replace_str(c.as_str(), "&quot;", "\"");
    let e = replace_str(d.as_str(), "&nbsp;", " ");
    trim_str(e.as_str())
}

// ---------------------------------------------------------------------------
// Percent-encoding
// ---------------------------------------------------------------------------

/// An upper-case hexadecimal digit.
pub open spec fn upper_hex_digit(d: nat) -> char {
    if d < 10 {
        ((48 + d) as u8) as char
    } else {
        ((55 + d) as u8) as char
    }
}

/// A byte that percent-encoding keeps: an ASCII letter or digit, or one of
/// `-`, `_`, `.`, `~`.
pub open spec fn is_unreserved_byte(b: u8) -> bool {
    (48 <= b && b <= 57) || (65 <= b && b <= 90) || (97 <= b && b <= 122) || b == 45 || b == 95 || b == 46
        || b == 126
}

/// Percent-encoded bytes: an unreserved byte as its character, any other
/// as `%` and two upper-case hexadecimal digits.
pub open spec fn percent_encode_bytes(bytes: Seq<u8>) -> Seq<char>
    decreases bytes.len(),
{
    if bytes.len() == 0 {
        seq![]
    } else {
        let b = bytes.last();
        percent_encode_bytes(bytes.drop_last()) + if is_unreserved_byte(b) {
            seq![b as char]
        } else {
            seq!['%', upper_hex_digit((b / 16) as nat), upper_hex_digit((b % 16) as nat)]
        }
    }
}

/// The percent-encoding of `s`: its UTF-8 bytes, percent-encoded (what
/// `urlencoding::encode` returns).
pub open spec fn percent_encoded(s: Seq<char>) -> Seq<char> {
    percent_encode_bytes(vstd::utf8::encode_utf8(s))
}

/// A hexadecimal digit byte of either case.
pub open spec fn is_hex_byte(b: u8) -> bool {
    (48 <= b && b <= 57) || (65 <= b && b <= 70) || (97 <= b && b <= 102)
}

/// The value of a hexadecimal digit byte.
pub open spec fn hex_byte_value(b: u8) -> int {
    if b <= 57 {
        b - 48
    } else if b <= 70 {
        b - 55
    } else {
        b - 87
    }
}

/// Percent-decoded bytes: `%` followed by two hexadecimal digits stands for
/// the byte they spell; every other byte (a `%` without two digits after
/// it, a `+`) stands for itself.
pub open spec fn percent_decode_bytes(bytes: Seq<u8>) -> Seq<u8>
    decreases bytes.len(),
{
    if bytes.len() == 0 {
        seq![]
    } else if bytes[0] == 37 && bytes.len() >= 3 && is_hex_byte(bytes[1]) && is_hex_byte(bytes[2]) {
        seq![(hex_byte_value(bytes[1]) * 16 + hex_byte_value(bytes[2])) as u8] + percent_decode_bytes(
            bytes.subrange(3, bytes.len() as int),
        )
    } else {
        seq![bytes[0]] + percent_decode_bytes(bytes.subrange(1, bytes.len() as int))
    }
}

/// The percent-decoding of `s`: its UTF-8 bytes decoded, read as UTF-8 when
/// they are valid, nothing otherwise (what `urlencoding::decode` returns).
pub open spec fn percent_decoded(s: Seq<char>) -> Option<Seq<char>> {
    let bytes = percent_decode_bytes(vstd::utf8::encode_utf8(s));
    if vstd::utf8::valid_utf8(bytes) {
        Some(vstd::utf8::decode_utf8(bytes))
    } else {
        None
    }
}

/// A character that percent-encoding keeps: an ASCII letter or digit, or
/// one of `-`, `_`, `.`, `~`.
pub open spec fn is_unreserved(c: char) -> bool {
    (48 <= (c as int) && (c as int) <= 57) || (65 <= (c as int) && (c as int) <= 90) || (97 <= (c as int)
        && (c as int) <= 122) || c == '-' || c == '_' || c == '.' || c == '~'
}

/// Percent-encodes `s`.
///
/// Wraps `urlencoding::encode`, which keeps the ASCII letters, digits and
/// `-_.~` of the string's UTF-8 bytes and writes every other byte as `%XX`
/// with upper-case digits; so a string of such characters comes back
/// unchanged.
#[verifier::external_body]
fn url_encode(s: &str) -> (r: String)
    ensures
        r@ == percent_encoded(s@),
        (forall|i: int| 0 <= i < s@.len() ==> is_unreserved(#[trigger] s@[i])) ==> r@ == s@,
{
    urlencoding::encode(s).into_owned()
}

/// Percent-decodes `s`, `None` when the bytes it spells are not UTF-8.
///
/// Wraps `urlencoding::decode`, which turns each `%` followed by two
/// hexadecimal digits into that byte, keeps every other byte (`+`
/// included), and reads the bytes with `String::from_utf8`.
#[verifier::external_body]
fn url_decode(s: &str) -> (r: Option<String>)
    ensures
        r matches Some(d) ==> percent_decoded(s@) == Some(d@),
        r is None ==> percent_decoded(s@) is None,
{
    urlencoding::decode(s).ok().map(|c| c.into_owned())
}

/// The URL of a search on the HTML endpoint.
pub fn html_search_url(query: &str) -> (r: String)
    ensures
        r@ == HTML_SEARCH_BASE@ + percent_encoded(query@),
{
    let mut u = String::from_str(HTML_SEARCH_BASE);
    let e = url_encode(query);
    u.append(e.as_str());
    u
}

/// The URL of a search on the Lite endpoint.
pub fn lite_search_url(query: &str) -> (r: String)
    ensures
        r@ == LITE_SEARCH_BASE@ + percent_encoded(query@),
{
    let mut u = String::from_str(LITE_SEARCH_BASE);
    let e = url_encode(query);
    u.append(e.as_str());
    u
}

/// The encoded target of a DuckDuckGo redirect link: what follows the
/// first `uddg=` up to the next `&` (or the end).
pub open spec fn spec_uddg_param(u: Seq<char>) -> Option<Seq<char>> {
    match find(u, "uddg="@) {
        Some(i) => {
            let enc = u.subrange(i + 5, u.len() as int);
            match find(enc, "&"@) {
                Some(j) => Some(enc.subrange(0, j)),
                None => Some(enc),
            }
        },
        None => None,
    }
}

/// The target of a result link: the decoded `uddg` parameter of a redirect
/// link (empty when it does not decode), the link itself when it begins
/// with `http`, and empty otherwise.
pub open spec fn spec_extract_ddg_url(u: Seq<char>) -> Seq<char> {
    match spec_uddg_param(u) {
        Some(p) => match percent_decoded(p) {
            Some(d) => d,
            None => seq![],
        },
        None => if is_prefix("http"@, u) {
            u
        } else {
            seq![]
        },
    }
}

/// The encoded target of a DuckDuckGo redirect link.
pub fn uddg_param(ddg_url: &str) -> (r: Option<String>)
    ensures
        r matches Some(p) ==> spec_uddg_param(ddg_url@) == Some(p@),
        r is None ==> spec_uddg_param(ddg_url@) is None,
{
    proof {
        reveal_strlit("uddg=");
        reveal_strlit("&");
    }
    let uv = chars_of(ddg_url);
    let key = chars_of("uddg=");
    assert(key@.len() == 5);
    match find_chars(&uv, &key) {
        Some(i) => {
            assert(occurs_at(uv@, key@, i as int));
            let n = uv.len();
            assert(i + 5 <= n);
            let enc = subvec(&uv, i + 5, n);
            let amp = chars_of("&");
            let end = match find_chars(&enc, &amp) {
                Some(j) => j,
                None => enc.len(),
            };
            let p = subvec(&enc, 0, end);
            assert(end == enc@.len() ==> p@ =~= enc@);
            Some(string_of(&p))
        },
        None => None,
    }
}

/// The target of a result link.
pub fn extract_ddg_url(ddg_url: &str) -> (r: String)
    ensures
        r@ == spec_extract_ddg_url(ddg_url@),
{
    match uddg_param(ddg_url) {
        Some(p) => match url_decode(p.as_str()) {
            Some(d) => d,
            None => String::new(),
        },
        None => {
            if starts_with(ddg_url, "http") {
                String::from_str(ddg_url)
            } else {
                String::new()
            }
        },
    }
}

// ---------------------------------------------------------------------------
// Regular-expression captures
// ---------------------------------------------------------------------------

/// Every match of `pattern` in `text`, in order, each as its capture groups
/// (group 0 the whole match, `None` for a group that did not take part),
/// or `None` when `pattern` is not a valid expression (what
/// `regex::Regex::new(pattern)` and `captures_iter(text)` give).
pub uninterp spec fn regex_captures_all(pattern: Seq<char>, text: Seq<char>) -> Option<Seq<Seq<Option<Seq<char>>>>>;

/// Every match of `pattern` in `text` with its capture groups.
///
/// Wraps `regex::Regex::new` (which compiles the pattern) and
/// `Regex::captures_iter`; the result is named `regex_captures_all`.
#[verifier::external_body]
fn regex_captures(pattern: &str, text: &str) -> (r: Option<Vec<Vec<Option<String>>>>)
    ensures
        r.deep_view() == regex_captures_all(pattern@, text@),
{
    let re = regex::Regex::new(pattern).ok()?;
    let mut all: Vec<Vec<Option<String>>> = Vec::new();
    for cap in re.captures_iter(text) {
        all.push(cap.iter().map(|m| m.map(|m| m.as_str().to_string())).collect());
    }
    Some(all)
}

/// The matches, or none when the pattern does not compile.
pub open spec fn matches_of(pattern: Seq<char>, text: Seq<char>) -> Seq<Seq<Option<Seq<char>>>> {
    match regex_captures_all(pattern, text) {
        Some(m) => m,
        None => seq![],
    }
}

/// Group `i` of a match, empty when it did not take part.
pub open spec fn group_text(cap: Seq<Option<Seq<char>>>, i: int) -> Seq<char> {
    if 0 <= i < cap.len() {
        match cap[i] {
            Some(t) => t,
            None => seq![],
        }
    } else {
        seq![]
    }
}

fn all_captures(pattern: &str, text: &str) -> (r: Vec<Vec<Option<String>>>)
    ensures
        r.deep_view() == matches_of(pattern@, text@),
{
    match regex_captures(pattern, text) {
        Some(m) => m,
        None => Vec::new(),
    }
}

/// Group `i` of a match, empty when it did not take part.
pub fn capture_group(cap: &Vec<Option<String>>, i: usize) -> (r: String)
    ensures
        r@ == group_text(cap.deep_view(), i as int),
{
    if i < cap.len() {
        match &cap[i] {
            Some(t) => t.clone(),
            None => String::new(),
        }
    } else {
        String::new()
    }
}

// ---------------------------------------------------------------------------
// Assembling results
// ---------------------------------------------------------------------------

/// The candidate of one link match: its target and its cleaned title.
pub open spec fn link_candidate(cap: Seq<Option<Seq<char>>>) -> (Seq<char>, Seq<char>) {
    (spec_extract_ddg_url(group_text(cap, 1)), spec_clean_html(group_text(cap, 2)))
}

/// The first `limit` link matches as (target, title) candidates.
pub open spec fn link_candidates(caps: Seq<Seq<Option<Seq<char>>>>, limit: nat) -> Seq<(Seq<char>, Seq<char>)> {
    let n = if caps.len() < limit { caps.len() } else { limit };
    caps.take(n as int).map_values(|c: Seq<Option<Seq<char>>>| link_candidate(c))
}

/// A result as its (title, url, snippet) characters.
pub open spec fn result_view(r: SearchResult) -> (Seq<char>, Seq<char>, Seq<char>) {
    (r.title@, r.url@, r.snippet@)
}

/// The results as their characters.
pub open spec fn results_view(rs: Seq<SearchResult>) -> Seq<(Seq<char>, Seq<char>, Seq<char>)> {
    rs.map_values(|r: SearchResult| result_view(r))
}

/// The candidates with a non-empty target and title, as results without
/// snippets, in order.
pub open spec fn kept_links(cands: Seq<(Seq<char>, Seq<char>)>) -> Seq<(Seq<char>, Seq<char>, Seq<char>)>
    decreases cands.len(),
{
    if cands.len() == 0 {
        seq![]
    } else {
        let rest = kept_links(cands.drop_last());
        let c = cands.last();
        if c.0.len() > 0 && c.1.len() > 0 {
            rest.push((c.1, c.0, seq![]))
        } else {
            rest
        }
    }
}

/// The results with the `i`-th snippet given to the `i`-th result, for as
/// many as there are of both.
pub open spec fn with_snippets(
    rs: Seq<(Seq<char>, Seq<char>, Seq<char>)>,
    snippets: Seq<Seq<char>>,
) -> Seq<(Seq<char>, Seq<char>, Seq<char>)> {
    Seq::new(
        rs.len(),
        |i: int| if i < snippets.len() { (rs[i].0, rs[i].1, snippets[i]) } else { rs[i] },
    )
}

/// Every result has an empty snippet.
pub open spec fn snippets_all_empty(rs: Seq<(Seq<char>, Seq<char>, Seq<char>)>) -> bool {
    forall|i: int| 0 <= i < rs.len() ==> rs[i].2.len() == 0
}

/// Group 1 of every match, cleaned.
pub open spec fn cleaned_group1(caps: Seq<Seq<Option<Seq<char>>>>) -> Seq<Seq<char>> {
    caps.map_values(|c: Seq<Option<Seq<char>>>| spec_clean_html(group_text(c, 1)))
}

/// The results of an HTML result page: the first `limit` result links
/// with a target and a title, given the link snippets in order, or, when
/// none of those gives a non-empty snippet, the span snippets.
pub open spec fn spec_parse_ddg_html(html: Seq<char>, limit: nat) -> Seq<(Seq<char>, Seq<char>, Seq<char>)> {
    let base = kept_links(link_candidates(matches_of(HTML_LINK_PATTERN@, html), limit));
    let first = with_snippets(base, cleaned_group1(matches_of(HTML_SNIPPET_PATTERN@, html)));
    if snippets_all_empty(first) {
        with_snippets(first, cleaned_group1(matches_of(HTML_SNIPPET_SPAN_PATTERN@, html)))
    } else {
        first
    }
}

/// The results of a Lite result page: the first `limit` result links with a
/// target and a title, given the snippets in order.
pub open spec fn spec_parse_ddg_lite(html: Seq<char>, limit: nat) -> Seq<(Seq<char>, Seq<char>, Seq<char>)> {
    with_snippets(
        kept_links(link_candidates(matches_of(LITE_LINK_PATTERN@, html), limit)),
        cleaned_group1(matches_of(LITE_SNIPPET_PATTERN@, html)),
    )
}

/// Keeping links never adds any, and every kept result has a non-empty title
/// and URL.
pub proof fn lemma_kept_links(cands: Seq<(Seq<char>, Seq<char>)>)
    ensures
        kept_links(cands).len() <= cands.len(),
        forall|i: int|
            0 <= i < kept_links(cands).len() ==> kept_links(cands)[i].0.len() > 0 && kept_links(cands)[i].1.len()
                > 0,
    decreases cands.len(),
{
    if cands.len() > 0 {
        lemma_kept_links(cands.drop_last());
    }
}

/// A page never yields more results than asked for, and every result has a
/// non-empty title and URL.
pub proof fn lemma_results_within_limit(html: Seq<char>, limit: nat)
    ensures
        spec_parse_ddg_html(html, limit).len() <= limit,
        spec_parse_ddg_lite(html, limit).len() <= limit,
        forall|i: int|
            0 <= i < spec_parse_ddg_html(html, limit).len() ==> spec_parse_ddg_html(html, limit)[i].0.len() > 0
                && spec_parse_ddg_html(html, limit)[i].1.len() > 0,
        forall|i: int|
            0 <= i < spec_parse_ddg_lite(html, limit).len() ==> spec_parse_ddg_lite(html, limit)[i].0.len() > 0
                && spec_parse_ddg_lite(html, limit)[i].1.len() > 0,
{
    lemma_kept_links(link_candidates(matches_of(HTML_LINK_PATTERN@, html), limit));
    lemma_kept_links(link_candidates(matches_of(LITE_LINK_PATTERN@, html), limit));
}

/// The (target, title) candidates of the first `limit` link matches.
pub fn link_pairs(caps: &Vec<Vec<Option<String>>>, limit: usize) -> (r: Vec<(String, String)>)
    ensures
        r.deep_view() == link_candidates(caps.deep_view(), limit as nat),
{
    let n = if caps.len() < limit { caps.len() } else { limit };
    let mut out: Vec<(String, String)> = Vec::new();
    let mut i: usize = 0;
    while i < n
        invariant
            i <= n,
            n <= caps@.len(),
            n == (if caps.deep_view().len() < limit { caps.deep_view().len() } else { limit as nat }),
            out.deep_view() == caps.deep_view().take(i as int).map_values(
                |c: Seq<Option<Seq<char>>>| link_candidate(c),
            ),
        decreases n - i,
    {
        let url = extract_ddg_url(capture_group(&caps[i], 1).as_str());
        let title = clean_html(capture_group(&caps[i], 2).as_str());
        let ghost before = out.deep_view();
        out.push((url, title));
        i = i + 1;
        assert(out.deep_view() =~= before.push((url@, title@)));
        assert(caps.deep_view().take(i as int).map_values(|c: Seq<Option<Seq<char>>>| link_candidate(c))
            =~= caps.deep_view().take(i - 1).map_values(|c: Seq<Option<Seq<char>>>| link_candidate(c)).push(
            link_candidate(caps.deep_view()[i - 1]),
        ));
    }
    out
}

/// Group 1 of every match, cleaned.
pub fn cleaned_snippets(caps: &Vec<Vec<Option<String>>>) -> (r: Vec<String>)
    ensures
        r.deep_view() == cleaned_group1(caps.deep_view()),
{
    let mut out: Vec<String> = Vec::new();
    let mut i: usize = 0;
    while i < caps.len()
        invariant
            i <= caps@.len(),
            out.deep_view() == cleaned_group1(caps.deep_view().take(i as int)),
        decreases caps.len() - i,
    {
        let s = clean_html(capture_group(&caps[i], 1).as_str());
        let ghost before = out.deep_view();
        out.push(s);
        i = i + 1;
        assert(out.deep_view() =~= before.push(s@));
        assert(cleaned_group1(caps.deep_view().take(i as int)) =~= cleaned_group1(
            caps.deep_view().take(i - 1),
        ).push(spec_clean_html(group_text(caps.deep_view()[i - 1], 1))));
    }
    assert(caps.deep_view().take(caps.deep_view().len() as int) =~= caps.deep_view());
    out
}

/// The candidates with a non-empty target and title, as results without
/// snippets.
pub fn keep_links(cands: &Vec<(String, String)>) -> (r: Vec<SearchResult>)
    ensures
        results_view(r@) == kept_links(cands.deep_view()),
{
    let mut out: Vec<SearchResult> = Vec::new();
    let mut i: usize = 0;
    while i < cands.len()
        invariant
            i <= cands@.len(),
            results_view(out@) == kept_links(cands.deep_view().take(i as int)),
        decreases cands.len() - i,
    {
        let (url, title) = &cands[i];
        assert(cands.deep_view().take(i + 1).drop_last() =~= cands.deep_view().take(i as int));
        assert(cands.deep_view().take(i + 1).last() == (url@, title@));
        if url.as_str().unicode_len() > 0 && title.as_str().unicode_len() > 0 {
            let r = SearchResult { title: title.clone(), url: url.clone(), snippet: String::new() };
            let ghost before = out@;
            out.push(r);
            assert(results_view(out@) =~= results_view(before).push(result_view(r)));
        }
        i = i + 1;
    }
    assert(cands.deep_view().take(cands.deep_view().len() as int) =~= cands.deep_view());
    out
}

/// The results with the `i`-th snippet given to the `i`-th result.
pub fn apply_snippets(results: Vec<SearchResult>, snippets: &Vec<String>) -> (r: Vec<SearchResult>)
    ensures
        results_view(r@) == with_snippets(results_view(results@), snippets.deep_view()),
{
    let mut out = results;
    let ghost orig = out@;
    let mut i: usize = 0;
    while i < out.len() && i < snippets.len()
        invariant
            i <= out@.len(),
            i <= snippets@.len(),
            out@.len() == orig.len(),
            forall|k: int| 0 <= k < i ==> #[trigger] result_view(out@[k]) == (orig[k].title@, orig[k].url@, snippets@[k]@),
            forall|k: int| i <= k < out@.len() ==> #[trigger] out@[k] == orig[k],
        decreases out.len() - i,
    {
        let s = snippets[i].clone();
        let old_r = &out[i];
        let new_r = SearchResult { title: old_r.title.clone(), url: old_r.url.clone(), snippet: s };
        out.set(i, new_r);
        i = i + 1;
    }
    assert forall|k: int| 0 <= k < out@.len() implies results_view(out@)[k] == with_snippets(
        results_view(orig),
        snippets.deep_view(),
    )[k] by {
        assert(results_view(out@)[k] == result_view(out@[k]));
        if k < i {
            assert(snippets.deep_view()[k] == snippets@[k]@);
        } else {
            assert(out@[k] == orig[k]);
        }
    }
    assert(results_view(out@) =~= with_snippets(results_view(orig), snippets.deep_view()));
    out
}

/// Whether every result has an empty snippet.
pub fn all_snippets_empty(results: &Vec<SearchResult>) -> (r: bool)
    ensures
        r == snippets_all_empty(results_view(results@)),
{
    let mut i: usize = 0;
    while i < results.len()
        invariant
            i <= results@.len(),
            forall|k: int| 0 <= k < i ==> results@[k].snippet@.len() == 0,
        decreases results.len() - i,
    {
        if results[i].snippet.as_str().unicode_len() > 0 {
            assert(results_view(results@)[i as int].2.len() > 0);
            return false;
        }
        i = i + 1;
    }
    true
}

/// The results of an HTML result page.
pub fn parse_ddg_html(html: &str, limit: usize) -> (r: Vec<SearchResult>)
    ensures
        results_view(r@) == spec_parse_ddg_html(html@, limit as nat),
{
    let links = all_captures(HTML_LINK_PATTERN, html);
    let base = keep_links(&link_pairs(&links, limit));
    let snippets = cleaned_snippets(&all_captures(HTML_SNIPPET_PATTERN, html));
    let first = apply_snippets(base, &snippets);
    if all_snippets_empty(&first) {
        let fallback = cleaned_snippets(&all_captures(HTML_SNIPPET_SPAN_PATTERN, html));
        apply_snippets(first, &fallback)
    } else {
        first
    }
}

/// The results of a Lite result page.
pub fn parse_ddg_lite(html: &str, limit: usize) -> (r: Vec<SearchResult>)
    ensures
        results_view(r@) == spec_parse_ddg_lite(html@, limit as nat),
{
    let links = all_captures(LITE_LINK_PATTERN, html);
    let base = keep_links(&link_pairs(&links, limit));
    let snippets = cleaned_snippets(&all_captures(LITE_SNIPPET_PATTERN, html));
    apply_snippets(base, &snippets)
}

/// The results of the HTML endpoint's page, if it holds result links (the
/// marker `result__a`); otherwise nothing, and the Lite endpoint is tried.
pub fn html_page_results(html: &str, limit: usize) -> (r: Option<Vec<SearchResult>>)
    ensures
        contains(html@, "result__a"@) ==> (r matches Some(v) && results_view(v@) == spec_parse_ddg_html(html@, limit as nat)),
        !contains(html@, "result__a"@) ==> r is None,
{
    if contains_str(html, "result__a") {
        Some(parse_ddg_html(html, limit))
    } else {
        None
    }
}

/// The results of the Lite endpoint's page: nothing when the page is a
/// challenge (it mentions `captcha` or `challenge`) or yields no result.
pub fn lite_page_results(html: &str, limit: usize) -> (r: Option<Vec<SearchResult>>)
    ensures
        (contains(html@, "captcha"@) || contains(html@, "challenge"@)) ==> r is None,
        !(contains(html@, "captcha"@) || contains(html@, "challenge"@)) ==> (if spec_parse_ddg_lite(
            html@,
            limit as nat,
        ).len() == 0 {
            r is None
        } else {
            r matches Some(v) && results_view(v@) == spec_parse_ddg_lite(html@, limit as nat)
        }),
{
    if contains_str(html, "captcha") || contains_str(html, "challenge") {
        return None;
    }
    let results = parse_ddg_lite(html, limit);
    if results.len() == 0 {
        None
    } else {
        Some(results)
    }
}

/// The answer carrying `results`, with the error `No results found` when
/// there are none.
pub fn search_response(results: Vec<SearchResult>) -> (r: SearchResponse)
    ensures
        r.results == results,
        results@.len() == 0 ==> (r.error matches Some(e) && e@ == "No results found"@),
        results@.len() > 0 ==> r.error is None,
{
    let error = if results.len() == 0 {
        Some(String::from_str("No results found"))
    } else {
        None
    };
    SearchResponse { results, error }
}

/// The answer when search is disabled in the configuration.
pub fn disabled_response() -> (r: SearchResponse)
    ensures
        r.results@.len() == 0,
        r.error matches Some(e) && e@ == "Search is disabled in config"@,
{
    SearchResponse { results: Vec::new(), error: Some(String::from_str("Search is disabled in config")) }
}

} // verus!
