use vulncanix::config::Config;

fn cfg(status: Option<&str>, hide: Option<&str>, exts: Option<&str>) -> Config {
    Config {
        target: "http://example.test".to_string(),
        concurrency: 10,
        timeout: 10,
        wordlist: "words.txt".to_string(),
        output: "txt".to_string(),
        status_codes: status.map(|s| s.to_string()),
        hide_status_codes: hide.map(|s| s.to_string()),
        extensions: exts.map(|s| s.to_string()),
        user_agent: "vulncanix/1.0".to_string(),
        follow_redirects: false,
        verbose: false,
    }
}

#[test]
fn status_codes_absent() {
    assert_eq!(cfg(None, None, None).get_status_codes_filter(), None);
    assert_eq!(cfg(None, None, None).get_hide_status_codes(), None);
}

#[test]
fn status_codes_basic() {
    assert_eq!(
        cfg(Some("200,403"), None, None).get_status_codes_filter(),
        Some(vec![200, 403])
    );
}

#[test]
fn status_codes_trims_spaces() {
    assert_eq!(
        cfg(Some(" 200 ,  403 ,500"), None, None).get_status_codes_filter(),
        Some(vec![200, 403, 500])
    );
}

#[test]
fn status_codes_drops_bad_entries() {
    assert_eq!(
        cfg(Some("abc,200,4o4,403"), None, None).get_status_codes_filter(),
        Some(vec![200, 403])
    );
}

#[test]
fn status_codes_drops_overflowing_entries() {
    assert_eq!(
        cfg(Some("99999,80,65536,65535"), None, None).get_status_codes_filter(),
        Some(vec![80, 65535])
    );
}

#[test]
fn status_codes_accepts_leading_zeros() {
    assert_eq!(
        cfg(Some("000200"), None, None).get_status_codes_filter(),
        Some(vec![200])
    );
}

#[test]
fn status_codes_empty_string_gives_empty_list() {
    assert_eq!(cfg(Some(""), None, None).get_status_codes_filter(), Some(vec![]));
}

#[test]
fn hide_status_codes_parse() {
    assert_eq!(
        cfg(None, Some("404, 400"), None).get_hide_status_codes(),
        Some(vec![404, 400])
    );
}

#[test]
fn extensions_absent_is_empty() {
    assert!(cfg(None, None, None).get_extensions().is_empty());
}

#[test]
fn extensions_split_and_trimmed() {
    assert_eq!(
        cfg(None, None, Some(".php, .bak , .old")).get_extensions(),
        vec![".php".to_string(), ".bak".to_string(), ".old".to_string()]
    );
}

#[test]
fn extensions_keep_empty_entries() {
    assert_eq!(
        cfg(None, None, Some("a,,b")).get_extensions(),
        vec!["a".to_string(), "".to_string(), "b".to_string()]
    );
}
