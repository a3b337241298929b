use white_hole::{encode, file_candidate, parse_keyword};

fn list() -> publicsuffix::List {
    "// ===BEGIN ICANN DOMAINS===\ncom\norg\n// ===END ICANN DOMAINS===\n"
        .parse()
        .unwrap()
}

#[test]
fn blank_keyword_leads_nowhere() {
    assert_eq!(parse_keyword(None, "   ", false), None);
    assert_eq!(parse_keyword(None, "", false), None);
}

#[test]
fn address_with_accepted_scheme_is_kept() {
    assert_eq!(
        parse_keyword(None, "  http://example.com/a b ", false),
        Some("http://example.com/a%20b".to_string())
    );
    assert_eq!(
        parse_keyword(None, "ftp://files.example.org/", false),
        Some("ftp://files.example.org/".to_string())
    );
}

#[test]
fn bare_domain_becomes_https() {
    assert_eq!(
        parse_keyword(None, "example.com/x", false),
        Some("https://example.com/x".to_string())
    );
    assert_eq!(parse_keyword(None, "intranet", false), Some("https://intranet/".to_string()));
}

#[test]
fn localhost_and_ip_hosts() {
    assert_eq!(
        parse_keyword(Some(&list()), "LocalHost:8080", false),
        Some("https://localhost:8080/".to_string())
    );
    assert_eq!(
        parse_keyword(None, "192.168.1.1/admin", false),
        Some("http://192.168.1.1/admin".to_string())
    );
}

#[test]
fn public_suffix_decides_between_address_and_search() {
    let l = list();
    assert_eq!(
        parse_keyword(Some(&l), "example.com", false),
        Some("https://example.com/".to_string())
    );
    assert_eq!(
        parse_keyword(Some(&l), "rust", false),
        Some("https://cn.bing.com/search?q=rust".to_string())
    );
}

#[test]
fn text_that_is_no_address_is_searched() {
    assert_eq!(
        parse_keyword(None, "hello world", false),
        Some("https://cn.bing.com/search?q=hello+world".to_string())
    );
}

#[test]
fn existing_path_becomes_file_address() {
    assert_eq!(file_candidate("  /tmp/notes.txt "), Some("/tmp/notes.txt".to_string()));
    assert_eq!(file_candidate("example.com"), None);
    assert_eq!(file_candidate("   "), None);
    let r = parse_keyword(None, "/tmp/notes.txt", true).unwrap();
    assert!(r.starts_with("file:///"));
    assert!(r.ends_with("/tmp/notes.txt"));
}

#[test]
fn keyword_encoding_escapes_fragment_set() {
    assert_eq!(encode("a b\"<>`c"), "a%20b%22%3C%3E%60c");
    assert_eq!(encode("中"), "%E4%B8%AD");
    assert_eq!(encode("plain/path?q=1"), "plain/path?q=1");
    assert_eq!(encode("\t\u{7f}"), "%09%7F");
}

#[test]
fn search_query_is_form_encoded() {
    assert_eq!(
        parse_keyword(None, "a&b =c*-._~", false),
        Some("https://cn.bing.com/search?q=a%26b+%3Dc*-._%7E".to_string())
    );
    assert_eq!(
        parse_keyword(Some(&list()), " \u{3000}编程 ", false),
        Some("https://cn.bing.com/search?q=%E7%BC%96%E7%A8%8B".to_string())
    );
}
