use echo_rust_agent_proxy::web::{
    collapse_whitespace, join_strings, list_search_results, page_text, search_results,
    search_url, truncate_text,
};

#[test]
fn search_url_percent_encodes() {
    assert_eq!(
        search_url("rust lang & verus"),
        "https://html.duckduckgo.com/html/?q=rust%20lang%20%26%20verus"
    );
    assert_eq!(search_url("a-b_c.d~e"), "https://html.duckduckgo.com/html/?q=a-b_c.d~e");
    assert_eq!(search_url("é"), "https://html.duckduckgo.com/html/?q=%C3%A9");
}

#[test]
fn whitespace_is_collapsed() {
    assert_eq!(collapse_whitespace("  a \n\t b   c  "), "a b c");
    assert_eq!(collapse_whitespace("   "), "");
    assert_eq!(collapse_whitespace("x"), "x");
}

#[test]
fn strings_are_joined() {
    let parts = vec!["a".to_string(), "b".to_string(), "c".to_string()];
    assert_eq!(join_strings(&parts, ", "), "a, b, c");
    assert_eq!(join_strings(&vec![], ", "), "");
}

#[test]
fn long_text_is_cut_with_note() {
    assert_eq!(truncate_text("hello", 10), "hello");
    assert_eq!(truncate_text("hello", 5), "hello");
    assert_eq!(
        truncate_text("hello world", 5),
        "hello...\n\n[Content truncated. Page was very long.]"
    );
}

#[test]
fn page_text_of_body() {
    let html = "<html><head><title>T</title></head><body><p>Hello   <b>big</b>\n world</p></body></html>";
    assert_eq!(page_text(html, None), Some("Hello big world".to_string()));
    assert_eq!(
        page_text(html, Some(5)),
        Some("Hello...\n\n[Content truncated. Page was very long.]".to_string())
    );
}

#[test]
fn page_cut_inside_a_character_is_refused() {
    let html = "<body>é</body>";
    assert_eq!(page_text(html, Some(1)), None);
    assert_eq!(page_text(html, Some(2)), Some("é".to_string()));
}

#[test]
fn search_results_are_listed() {
    let html = r#"<html><body>
        <a class="result__a" href="https://a.example">  First </a>
        <div class="result__snippet"> one </div>
        <a class="result__a" href="https://b.example">Second</a>
        </body></html>"#;
    assert_eq!(
        search_results(html),
        "1. First\n   https://a.example\n   one\n\n2. Second\n   https://b.example\n   "
    );
    assert_eq!(search_results("<html><body>nothing</body></html>"), "No search results found.");
}

#[test]
fn at_most_five_results() {
    let mut html = String::from("<body>");
    for i in 0..7 {
        html.push_str(&format!("<a class=\"result__a\" href=\"u{}\">t{}</a>", i, i));
    }
    html.push_str("</body>");
    let listing = search_results(&html);
    assert!(listing.starts_with("1. t0\n   u0\n   "));
    assert!(listing.ends_with("5. t4\n   u4\n   "));
    assert!(!listing.contains("t5"));
}

#[test]
fn listing_from_given_parts() {
    let titles = vec![vec![" A".to_string(), "b ".to_string()], vec!["C".to_string()]];
    let links = vec![Some("l1".to_string())];
    let snippets = vec![vec!["s1".to_string()], vec!["s2".to_string()]];
    assert_eq!(
        list_search_results(&titles, &links, &snippets),
        "1. Ab\n   l1\n   s1\n\n2. C\n   \n   s2"
    );
    assert_eq!(list_search_results(&vec![], &vec![], &vec![]), "No search results found.");
}
