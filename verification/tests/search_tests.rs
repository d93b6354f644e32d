use wiki_server::search::{
    all_snippets_empty, apply_snippets, capture_group, clean_html, cleaned_snippets, default_limit,
    disabled_response, extract_ddg_url, html_page_results, html_search_url, keep_links, link_pairs,
    lite_page_results, lite_search_url, parse_ddg_html, parse_ddg_lite, search_response, uddg_param,
    SearchResult,
};

fn sr(t: &str, u: &str, s: &str) -> SearchResult {
    SearchResult { title: t.to_string(), url: u.to_string(), snippet: s.to_string() }
}

fn triples(v: &[SearchResult]) -> Vec<(String, String, String)> {
    v.iter().map(|r| (r.title.clone(), r.url.clone(), r.snippet.clone())).collect()
}

fn html_page() -> String {
    [
    r#"<div><a rel="nofollow" class="result__a" href="//duckduckgo.com/l/?uddg=https%3A%2F%2Fexample.com%2Fa%3Fx%3D1&amp;rut=abc">Example &amp; Co</a>"#,
    r#"<a class="result__snippet" href="x">First &lt;b&gt;snippet&lt;/b&gt;  </a>"#,
    r#"<a class="result__a" href="https://direct.org/page">  Direct  </a>"#,
    r#"<a class="result__snippet" href="x">Second</a>"#,
    r#"<a class="result__a" href="/relative">Dropped</a>"#,
    r#"<a class="result__a" href="https://third.net">Third</a></div>"#,
    ]
    .concat()
}

#[test]
fn default_limit_is_five() {
    assert_eq!(default_limit(), 5);
}

#[test]
fn clean_html_matches_chained_replace() {
    for s in ["  a &amp;lt; b  ", "&quot;q&quot;&nbsp;", "&amp;amp;", "plain", ""] {
        let expected = s
            .replace("&amp;", "&")
            .replace("&lt;", "<")
            .replace("&gt;", ">")
            .replace("&quot;", "\"")
            .replace("&nbsp;", " ")
            .trim()
            .to_string();
        assert_eq!(clean_html(s), expected, "{:?}", s);
    }
    assert_eq!(clean_html(" x &lt;y&gt; "), "x <y>");
}

#[test]
fn search_urls_are_encoded() {
    assert_eq!(html_search_url("rust lang & co"), "https://html.duckduckgo.com/html/?q=rust%20lang%20%26%20co");
    assert_eq!(lite_search_url("a/b"), "https://lite.duckduckgo.com/lite/?q=a%2Fb");
    assert_eq!(html_search_url("safe-._~"), "https://html.duckduckgo.com/html/?q=safe-._~");
}

#[test]
fn redirect_targets() {
    assert_eq!(uddg_param("/l/?uddg=abc&rut=1"), Some("abc".to_string()));
    assert_eq!(uddg_param("/l/?x=1"), None);
    assert_eq!(extract_ddg_url("//duckduckgo.com/l/?uddg=https%3A%2F%2Fex.com%2F&rut=z"), "https://ex.com/");
    assert_eq!(extract_ddg_url("https://plain.org"), "https://plain.org");
    assert_eq!(extract_ddg_url("ftp://x"), "");
    assert_eq!(extract_ddg_url("/l/?uddg=%FF%FE"), "");
}

#[test]
fn html_page_parsing() {
    let r = parse_ddg_html(&html_page(), 5);
    assert_eq!(
        triples(&r),
        vec![
            ("Example & Co".to_string(), "https://example.com/a?x=1".to_string(), "First <b>snippet</b>".to_string()),
            ("Direct".to_string(), "https://direct.org/page".to_string(), "Second".to_string()),
            ("Third".to_string(), "https://third.net".to_string(), String::new()),
        ]
    );
    let limited = parse_ddg_html(&html_page(), 2);
    assert_eq!(limited.len(), 2);
    let three = parse_ddg_html(&html_page(), 3);
    assert_eq!(three.len(), 2);
}

#[test]
fn html_span_snippet_fallback() {
    let page = [
        r#"<a class="result__a" href="https://a.com">A</a>"#,
        r#"<span class="result__snippet">from span</span>"#,
    ]
    .concat();
    let r = parse_ddg_html(&page, 5);
    assert_eq!(triples(&r), vec![("A".to_string(), "https://a.com".to_string(), "from span".to_string())]);
}

#[test]
fn lite_page_parsing() {
    let page = [
        r#"<a rel="nofollow" href="https://one.com">One</a><td class="result-snippet">Snip <b>bold</b> end</td>"#,
        r#"<a rel="nofollow" href="https://two.com">Two</a>"#,
    ]
    .concat();
    let r = parse_ddg_lite(&page, 5);
    assert_eq!(
        triples(&r),
        vec![
            ("One".to_string(), "https://one.com".to_string(), "Snip <b>bold</b> end".to_string()),
            ("Two".to_string(), "https://two.com".to_string(), String::new()),
        ]
    );
    assert_eq!(lite_page_results(&page, 5).map(|v| v.len()), Some(2));
    assert!(lite_page_results("please solve this captcha", 5).is_none());
    assert!(lite_page_results("<html>nothing</html>", 5).is_none());
}

#[test]
fn html_page_needs_marker() {
    assert!(html_page_results("<html>no links</html>", 5).is_none());
    assert_eq!(html_page_results(&html_page(), 5).map(|v| v.len()), Some(3));
}

#[test]
fn pieces_of_the_parser() {
    let caps = vec![vec![Some("whole".to_string()), Some("https://x.y".to_string()), Some(" T ".to_string())]];
    assert_eq!(capture_group(&caps[0], 2), " T ");
    assert_eq!(capture_group(&caps[0], 7), "");
    assert_eq!(capture_group(&vec![None], 0), "");
    let pairs = link_pairs(&caps, 5);
    assert_eq!(pairs, vec![("https://x.y".to_string(), "T".to_string())]);
    assert_eq!(link_pairs(&caps, 0), vec![]);
    let kept = keep_links(&vec![("".to_string(), "t".to_string()), ("u".to_string(), "t".to_string())]);
    assert_eq!(triples(&kept), vec![("t".to_string(), "u".to_string(), String::new())]);
    assert_eq!(cleaned_snippets(&caps), vec!["https://x.y".to_string()]);
    let applied = apply_snippets(vec![sr("a", "u", ""), sr("b", "v", "")], &vec!["s1".to_string()]);
    assert_eq!(triples(&applied)[0].2, "s1");
    assert_eq!(triples(&applied)[1].2, "");
    assert!(all_snippets_empty(&vec![sr("a", "u", "")]));
    assert!(!all_snippets_empty(&applied));
}

#[test]
fn responses() {
    let empty = search_response(vec![]);
    assert_eq!(empty.error.as_deref(), Some("No results found"));
    let some = search_response(vec![sr("a", "b", "c")]);
    assert!(some.error.is_none());
    assert_eq!(some.results.len(), 1);
    let d = disabled_response();
    assert!(d.results.is_empty());
    assert_eq!(d.error.as_deref(), Some("Search is disabled in config"));
}

#[test]
fn cleaning_shrinks_and_trims() {
    for t in ["  &amp;&lt;b&gt;  ", "&nbsp;x&nbsp;", "&quot;", "plain text", "\t\n", ""] {
        let r = clean_html(t);
        assert!(r.chars().count() <= t.chars().count(), "{:?}", t);
        assert_eq!(r, r.trim(), "{:?}", t);
    }
}

#[test]
fn encoding_is_bytewise_upper_hex() {
    assert_eq!(html_search_url("é ü/"), "https://html.duckduckgo.com/html/?q=%C3%A9%20%C3%BC%2F");
    assert_eq!(lite_search_url("a+b~"), "https://lite.duckduckgo.com/lite/?q=a%2Bb~");
}

#[test]
fn redirect_decoding_matches_urlencoding() {
    for enc in ["a%2Fb", "%4g", "%%41", "%e9", "%C3%A9", "x+y", "%", "%4", "%zz%41", "plain", "%c3%A9%2"] {
        let expected = urlencoding::decode(enc).map(|c| c.into_owned()).unwrap_or_default();
        assert_eq!(extract_ddg_url(&format!("/l/?uddg={}&rut=1", enc)), expected, "{:?}", enc);
    }
}

#[test]
fn plain_trimmed_text_is_unchanged_and_bytes_never_grow() {
    for t in ["plain text", "é ü <b>", "x", ""] {
        assert_eq!(clean_html(t), t);
    }
    for t in ["  é&amp;ü  ", "&nbsp;&nbsp;ä", "&quot;ö&quot;"] {
        assert!(clean_html(t).len() <= t.len(), "{:?}", t);
    }
}
