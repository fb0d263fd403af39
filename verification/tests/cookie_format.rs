use get_cookies::cookie_format::{cookie_string, CookiePair};
use get_cookies::read_cookie::win::cookie_reader::{list_cookie_string, tick_event};

fn pair(name: &str, value: &str) -> CookiePair {
    CookiePair { name: name.to_string(), value: value.to_string() }
}

#[test]
fn cookie_string_joins_pairs_with_semicolons() {
    let pairs = vec![pair("logged_in", "yes"), pair("user", "alice"), pair("_gh_sess", "abc")];
    assert_eq!(cookie_string(&pairs), "logged_in=yes;user=alice;_gh_sess=abc");
}

#[test]
fn cookie_string_of_one_cookie_has_no_separator() {
    assert_eq!(cookie_string(&vec![pair("a", "1")]), "a=1");
}

#[test]
fn cookie_string_of_no_cookies_is_empty() {
    assert_eq!(cookie_string(&Vec::new()), "");
}

#[test]
fn cookie_string_keeps_empty_names_and_values() {
    assert_eq!(cookie_string(&vec![pair("", ""), pair("k", "")]), "=;k=");
}

#[test]
fn cookie_string_keeps_non_ascii_text() {
    assert_eq!(cookie_string(&vec![pair("名前", "値"), pair("b", "ü")]), "名前=値;b=ü");
}

#[test]
fn cookie_string_splits_back_into_pairs() {
    let pairs = vec![pair("logged_in", "yes"), pair("dotcom_user", "lonelam"), pair("tz", "Asia%2FShanghai")];
    let s = cookie_string(&pairs);
    let parts: Vec<&str> = s.split(';').collect();
    assert_eq!(parts, vec!["logged_in=yes", "dotcom_user=lonelam", "tz=Asia%2FShanghai"]);
}

#[test]
fn list_cookie_string_without_list_is_empty() {
    assert_eq!(list_cookie_string(None), "");
}

#[test]
fn list_cookie_string_with_list_joins_it() {
    let pairs = vec![pair("sessionid", "42"), pair("lang", "zh")];
    assert_eq!(list_cookie_string(Some(&pairs)), "sessionid=42;lang=zh");
}

#[test]
fn tick_event_carries_placeholder_text() {
    assert_eq!(tick_event().cookie_str, "hello");
}
