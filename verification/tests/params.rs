use hyperion::text::{chars_of, cut, find, same_text};
use hyperion::utils::{read_cookies, read_get, read_post};
use hyperion::varmap::VarMap;

fn header(name: &str, value: &str) -> (String, String) {
    (name.to_string(), value.to_string())
}

#[test]
fn query_parameters_are_read() {
    let map = read_get(Some("a=1&b=two&c=")).unwrap();
    assert_eq!(map.len(), 3);
    assert_eq!(map.get("a"), Some(&"1".to_string()));
    assert_eq!(map.get("b"), Some(&"two".to_string()));
    assert_eq!(map.get("c"), Some(&String::new()));
    assert_eq!(map.get("d"), None);
}

#[test]
fn request_without_query_has_no_parameters() {
    assert!(read_get(None).unwrap().is_empty());
}

#[test]
fn later_parameter_overwrites() {
    let map = read_get(Some("a=1&a=2")).unwrap();
    assert_eq!(map.len(), 1);
    assert_eq!(map.get("a"), Some(&"2".to_string()));
}

#[test]
fn value_ends_at_a_second_equals_sign() {
    let map = read_get(Some("a=b=c&=x")).unwrap();
    assert_eq!(map.len(), 2);
    assert_eq!(map.get("a"), Some(&"b".to_string()));
    assert_eq!(map.get(""), Some(&"x".to_string()));
}

#[test]
fn piece_without_equals_sign_is_refused() {
    assert!(read_get(Some("a")).is_none());
    assert!(read_get(Some("")).is_none());
    assert!(read_get(Some("a=1&b")).is_none());
    assert!(read_get(Some("a=1&")).is_none());
    assert!(read_get(Some("&a=1")).is_none());
}

#[test]
fn form_fields_are_read() {
    let map = read_post("username=cardinal&password=s\u{e9}cret").unwrap();
    assert_eq!(map.len(), 2);
    assert_eq!(map.get("username"), Some(&"cardinal".to_string()));
    assert_eq!(map.get("password"), Some(&"s\u{e9}cret".to_string()));
    assert!(read_post("username").is_none());
}

#[test]
fn cookies_are_read_from_every_cookie_header() {
    let headers = vec![
        header("host", "example.org"),
        header("cookie", "SESSIONID=abc;theme=dark"),
        header("accept", "a=b"),
        header("cookie", "theme=light"),
    ];
    let map = read_cookies(&headers).unwrap();
    assert_eq!(map.len(), 2);
    assert_eq!(map.get("SESSIONID"), Some(&"abc".to_string()));
    assert_eq!(map.get("theme"), Some(&"light".to_string()));
}

#[test]
fn cookie_names_keep_their_spaces() {
    let headers = vec![header("cookie", "a=1; b=2")];
    let map = read_cookies(&headers).unwrap();
    assert_eq!(map.get("a"), Some(&"1".to_string()));
    assert_eq!(map.get(" b"), Some(&"2".to_string()));
    assert_eq!(map.get("b"), None);
}

#[test]
fn no_cookie_header_means_no_cookies() {
    let headers = vec![header("host", "example.org"), header("Cookie", "a=1")];
    assert!(read_cookies(&headers).unwrap().is_empty());
    assert!(read_cookies(&Vec::new()).unwrap().is_empty());
}

#[test]
fn malformed_cookie_header_is_refused() {
    assert!(read_cookies(&vec![header("cookie", "a=1;b")]).is_none());
    assert!(read_cookies(&vec![header("cookie", "a=1"), header("cookie", "")]).is_none());
    assert!(read_cookies(&vec![header("cookie", "a"), header("cookie", "b=1")]).is_none());
}

#[test]
fn map_inserts_overwrites_and_removes() {
    let mut map = VarMap::new();
    assert!(map.is_empty());
    assert_eq!(map.len(), 0);
    map.insert("a".to_string(), "1".to_string());
    map.insert("b".to_string(), "2".to_string());
    map.insert("a".to_string(), "3".to_string());
    assert_eq!(map.len(), 2);
    assert!(map.contains_key("a"));
    assert!(!map.contains_key("c"));
    assert_eq!(map.get("a"), Some(&"3".to_string()));
    assert_eq!(
        map.pairs(),
        vec![
            ("a".to_string(), "3".to_string()),
            ("b".to_string(), "2".to_string())
        ]
    );
    map.remove("a");
    map.remove("zzz");
    assert_eq!(map.len(), 1);
    assert_eq!(map.get("a"), None);
    assert_eq!(map.pairs(), vec![("b".to_string(), "2".to_string())]);
    let copy = map.clone();
    map.remove("b");
    assert!(map.is_empty());
    assert_eq!(copy.get("b"), Some(&"2".to_string()));
}

#[test]
fn text_helpers() {
    assert!(same_text("abc", "abc"));
    assert!(same_text("", ""));
    assert!(!same_text("abc", "abd"));
    assert!(!same_text("abc", "ab"));
    assert!(!same_text("ab", "abc"));
    assert!(same_text("\u{e9}t\u{e9}", "\u{e9}t\u{e9}"));
    assert_eq!(chars_of("h\u{e9}!"), vec!['h', '\u{e9}', '!']);
    let chars = chars_of("a=b=c");
    assert_eq!(find(&chars, '=', 0, 5), 1);
    assert_eq!(find(&chars, '=', 2, 5), 3);
    assert_eq!(find(&chars, '=', 4, 5), 5);
    assert_eq!(find(&chars, '=', 0, 1), 1);
    assert_eq!(find(&chars, 'x', 0, 5), 5);
    assert_eq!(cut("h\u{e9}llo", 1, 3), "\u{e9}l");
    assert_eq!(cut("hello", 2, 2), "");
    assert_eq!(cut("hello", 0, 5), "hello");
}
