use upgit::string_ops::{find_char, join_first, parse_usize, split, starts_with, str_to_opt};

fn strings(parts: &[&str]) -> Vec<String> {
    parts.iter().map(|p| p.to_string()).collect()
}

#[test]
fn find_char_gives_the_first_place() {
    assert_eq!(find_char("a@b@c", '@'), Some(1));
    assert_eq!(find_char("@", '@'), Some(0));
    assert_eq!(find_char("abc", '@'), None);
    assert_eq!(find_char("", '@'), None);
    assert_eq!(find_char("Δx→y", '→'), Some(2));
}

#[test]
fn split_keeps_empty_pieces() {
    assert_eq!(split("a/b/c", '/'), strings(&["a", "b", "c"]));
    assert_eq!(split("abc", '/'), strings(&["abc"]));
    assert_eq!(split("", '/'), strings(&[""]));
    assert_eq!(split("/a//b/", '/'), strings(&["", "a", "", "b", ""]));
    assert_eq!(split("ä,ö", ','), strings(&["ä", "ö"]));
}

#[test]
fn join_first_joins_a_beginning() {
    let parts = strings(&["my", "long", "org", "repo.git"]);
    assert_eq!(join_first(&parts, 3, "/"), "my/long/org");
    assert_eq!(join_first(&parts, 4, "/"), "my/long/org/repo.git");
    assert_eq!(join_first(&parts, 1, "/"), "my");
    assert_eq!(join_first(&parts, 0, "/"), "");
    assert_eq!(join_first(&parts, 2, ", "), "my, long");
}

#[test]
fn starts_with_compares_the_beginning() {
    assert!(starts_with("https://x", "https://"));
    assert!(!starts_with("http://x", "https://"));
    assert!(starts_with("abc", ""));
    assert!(starts_with("abc", "abc"));
    assert!(!starts_with("ab", "abc"));
    assert!(!starts_with("", "a"));
}

#[test]
fn parse_usize_reads_decimal() {
    assert_eq!(parse_usize("0"), Some(0));
    assert_eq!(parse_usize("7"), Some(7));
    assert_eq!(parse_usize("+7"), Some(7));
    assert_eq!(parse_usize("0042"), Some(42));
    assert_eq!(parse_usize("18446744073709551615"), "18446744073709551615".parse::<usize>().ok());
    assert_eq!(parse_usize(&usize::MAX.to_string()), Some(usize::MAX));
}

#[test]
fn parse_usize_refuses_the_rest() {
    assert_eq!(parse_usize(""), None);
    assert_eq!(parse_usize("+"), None);
    assert_eq!(parse_usize("-1"), None);
    assert_eq!(parse_usize("1 "), None);
    assert_eq!(parse_usize(" 1"), None);
    assert_eq!(parse_usize("1+"), None);
    assert_eq!(parse_usize("++1"), None);
    assert_eq!(parse_usize("12a"), None);
    assert_eq!(parse_usize("١٢"), None);
    assert_eq!(parse_usize("18446744073709551616"), "18446744073709551616".parse::<usize>().ok());
    assert_eq!(parse_usize("99999999999999999999999999"), None);
}

#[test]
fn str_to_opt_drops_the_empty_text() {
    assert_eq!(str_to_opt(String::new()), None);
    assert_eq!(str_to_opt(String::from(" ")), Some(String::from(" ")));
    assert_eq!(str_to_opt(String::from("pass")), Some(String::from("pass")));
}
