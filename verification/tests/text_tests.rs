use vulncanix::text::parse_code_list;
use vulncanix::text::parse_u16;
use vulncanix::text::split_and_trim;
use vulncanix::text::split_str;
use vulncanix::text::str_contains;
use vulncanix::text::str_starts_with;
use vulncanix::text::trim;
use vulncanix::wordlist::normalize_wordlist;
use vulncanix::wordlist::wordlist_from_content;

#[test]
fn contains_finds_substrings() {
    assert!(str_contains("http://t/admin", "admin"));
    assert!(str_contains("abc", "abc"));
    assert!(str_contains("abc", ""));
    assert!(str_contains("", ""));
    assert!(!str_contains("", "a"));
    assert!(!str_contains("abc", "abcd"));
    assert!(!str_contains("aab", "ab c"));
    assert!(str_contains("aaab", "aab"));
}

#[test]
fn starts_with_prefixes() {
    assert!(str_starts_with("http://x", "http://"));
    assert!(str_starts_with("https://x", "https://"));
    assert!(!str_starts_with("ftp://x", "http://"));
    assert!(str_starts_with("abc", ""));
    assert!(!str_starts_with("ab", "abc"));
}

#[test]
fn trim_strips_whitespace() {
    assert_eq!(trim("  a b \t"), "a b");
    assert_eq!(trim("word\r"), "word");
    assert_eq!(trim("   "), "");
    assert_eq!(trim(""), "");
    assert_eq!(trim("x"), "x");
}

#[test]
fn parse_u16_values() {
    assert_eq!(parse_u16("0"), Some(0));
    assert_eq!(parse_u16("404"), Some(404));
    assert_eq!(parse_u16("65535"), Some(65535));
    assert_eq!(parse_u16("65536"), None);
    assert_eq!(parse_u16("99999999999999999999"), None);
    assert_eq!(parse_u16(""), None);
    assert_eq!(parse_u16("12a"), None);
    assert_eq!(parse_u16("-1"), None);
    assert_eq!(parse_u16("+1"), None);
    assert_eq!(parse_u16("000080"), Some(80));
}

#[test]
fn split_keeps_empty_segments() {
    assert_eq!(split_str("a,b", ','), vec!["a".to_string(), "b".to_string()]);
    assert_eq!(
        split_str(",a,,b,", ','),
        vec!["".to_string(), "a".to_string(), "".to_string(), "b".to_string(), "".to_string()]
    );
    assert_eq!(split_str("", ','), vec!["".to_string()]);
}

#[test]
fn split_and_trim_entries() {
    assert_eq!(
        split_and_trim(" a , b ,c"),
        vec!["a".to_string(), "b".to_string(), "c".to_string()]
    );
}

#[test]
fn parse_code_list_mixed() {
    assert_eq!(parse_code_list("200, 403,nope,70000"), vec![200, 403]);
    assert_eq!(parse_code_list(""), Vec::<u16>::new());
}

#[test]
fn wordlist_normalization() {
    let lines: Vec<String> =
        ["admin", "  backup ", "", "admin", "login"].iter().map(|s| s.to_string()).collect();
    assert_eq!(
        normalize_wordlist(&lines),
        vec!["admin".to_string(), "backup".to_string(), "login".to_string()]
    );
}

#[test]
fn wordlist_from_raw_content() {
    let content = "admin\r\nbackup\n\nadmin\n  login  \n";
    assert_eq!(
        wordlist_from_content(content),
        vec!["admin".to_string(), "backup".to_string(), "login".to_string()]
    );
}
