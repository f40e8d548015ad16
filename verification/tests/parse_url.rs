use upgit::git_url::{mk_err, parse_git_url, parse_url, GitUrl, UpgitErr, UrlParts};

fn mk_url(domain: &str, org: &str, repo: &str, scheme: &str, username: &str) -> GitUrl {
    GitUrl {
        domain: String::from(domain),
        org: String::from(org),
        repo: String::from(repo),
        scheme: String::from(scheme),
        username: String::from(username),
    }
}

#[test]
fn plain_domains() {
    let input_url = String::from("https://github.com");
    let expected = mk_url("github.com", "", "", "https", "");
    assert_eq!(parse_url(input_url).unwrap(), expected);
}

#[test]
fn plain_domains_trailing_slash() {
    let input_url = String::from("https://github.com/");
    let expected = mk_url("github.com", "", "", "https", "");
    assert_eq!(parse_url(input_url).unwrap(), expected);
}

#[test]
fn username_domains() {
    let input_url = String::from("https://neallred@github.com/");
    let expected = mk_url("github.com", "", "", "https", "neallred");
    assert_eq!(parse_url(input_url).unwrap(), expected);
}

#[test]
fn orgless_repo() {
    let input_url = String::from("https://gitstub.io/repo-sans-org.git");
    let expected = mk_url("gitstub.io", "", "repo-sans-org.git", "https", "");
    assert_eq!(parse_url(input_url).unwrap(), expected);
}

#[test]
fn orgless_repo_sans_extension() {
    let input_url = String::from("https://gitstub.io/repo-sans-org");
    let expected = mk_url("gitstub.io", "", "repo-sans-org", "https", "");
    assert_eq!(parse_url(input_url).unwrap(), expected);
}

#[test]
fn short_orgs() {
    let input_url = String::from("https://github.com/org/repo.git");
    let expected = mk_url("github.com", "org", "repo.git", "https", "");
    assert_eq!(parse_url(input_url).unwrap(), expected);
}

#[test]
fn long_orgs() {
    let input_url = String::from("https://gitstub.io/my/long/org/repo.git");
    let expected = mk_url("gitstub.io", "my/long/org", "repo.git", "https", "");
    assert_eq!(parse_url(input_url).unwrap(), expected);
}

#[test]
fn git_ssh_urls() {
    let input_url = String::from("git@gitstub.io/my/long/org/repo.git");
    let expected = mk_url("gitstub.io", "my/long/org", "repo.git", "unknown", "git");
    assert_eq!(parse_url(input_url).unwrap(), expected);
}

#[test]
fn two_organization_segments_with_user() {
    let input_url = String::from("https://user@host.example/org1/org2/repo.git");
    let expected = mk_url("host.example", "org1/org2", "repo.git", "https", "user");
    assert_eq!(parse_url(input_url).unwrap(), expected);
}

#[test]
fn http_scheme_is_kept() {
    let input_url = String::from("http://host.example/org/repo");
    let expected = mk_url("host.example", "org", "repo", "http", "");
    assert_eq!(parse_url(input_url).unwrap(), expected);
}

#[test]
fn bare_host_gets_unknown_scheme() {
    let input_url = String::from("host.example/org/repo.git");
    let expected = mk_url("host.example", "org", "repo.git", "unknown", "");
    assert_eq!(parse_url(input_url).unwrap(), expected);
}

#[test]
fn ssh_shorthand_through_parse_url() {
    let input_url = String::from("git@github.com:org/repo.git");
    let expected = mk_url("github.com", "org", "repo.git", "git", "git");
    assert_eq!(parse_url(input_url).unwrap(), expected);
}

#[test]
fn ssh_shorthand_with_another_user() {
    let input_url = String::from("alice@host.example:team/project.git");
    let expected = mk_url("host.example", "team", "project.git", "git", "alice");
    assert_eq!(parse_url(input_url).unwrap(), expected);
}

#[test]
fn https_with_port_is_no_shorthand() {
    let input_url = String::from("https://user@host.example:8443/org/repo.git");
    let expected = mk_url("host.example", "org", "repo.git", "https", "user");
    assert_eq!(parse_url(input_url).unwrap(), expected);
}

#[test]
fn ssh_shorthand_long_organization() {
    let input_url = String::from("git@gitstub.io:my/long/org/repo.git");
    let expected = mk_url("gitstub.io", "my/long/org", "repo.git", "git", "git");
    assert_eq!(parse_git_url(input_url).unwrap(), expected);
}

#[test]
fn ssh_shorthand_single_segment() {
    let input_url = String::from("git@gitstub.io:repo.git");
    let expected = mk_url("gitstub.io", "", "repo.git", "git", "git");
    assert_eq!(parse_git_url(input_url).unwrap(), expected);
}

#[test]
fn ssh_shorthand_empty_path() {
    let input_url = String::from("git@gitstub.io:");
    let expected = mk_url("gitstub.io", "", "", "git", "git");
    assert_eq!(parse_git_url(input_url).unwrap(), expected);
}

#[test]
fn ssh_shorthand_stops_at_second_separator() {
    let input_url = String::from("git@gitstub.io:org/repo.git:tail@more");
    let expected = mk_url("gitstub.io", "org", "repo.git", "git", "git");
    assert_eq!(parse_git_url(input_url).unwrap(), expected);
}

#[test]
fn ssh_shorthand_without_user_separator_fails() {
    match parse_git_url(String::from("gitstub.io:org/repo.git")) {
        Err(e) => match *e {
            UpgitErr::UrlParse(m) => assert_eq!(m, "did not have other info"),
            UpgitErr::Url(_) => panic!("wrong kind of error"),
        },
        Ok(_) => panic!("parsed a remote without a user"),
    }
}

#[test]
fn ssh_shorthand_without_path_separator_fails() {
    match parse_git_url(String::from("git@gitstub.io/org/repo.git")) {
        Err(e) => match *e {
            UpgitErr::UrlParse(m) => assert_eq!(m, "did not have other info"),
            UpgitErr::Url(_) => panic!("wrong kind of error"),
        },
        Ok(_) => panic!("parsed a remote without a path separator"),
    }
}

#[test]
fn missing_host_fails_in_the_url_parser() {
    match parse_url(String::from("https://")) {
        Err(e) => assert!(matches!(*e, UpgitErr::Url(url::ParseError::EmptyHost))),
        Ok(_) => panic!("parsed a remote without a host"),
    }
}

#[test]
fn bad_port_fails_in_the_url_parser() {
    match parse_url(String::from("https://host.example:port/org/repo")) {
        Err(e) => assert!(matches!(*e, UpgitErr::Url(url::ParseError::InvalidPort))),
        Ok(_) => panic!("parsed a remote with a bad port"),
    }
}

#[test]
fn mk_err_keeps_the_message() {
    match *mk_err("missing user") {
        UpgitErr::UrlParse(m) => assert_eq!(m, "missing user"),
        UpgitErr::Url(_) => panic!("wrong kind of error"),
    }
}

#[test]
fn from_parts_without_segments() {
    let parts = UrlParts {
        scheme: String::from("data"),
        username: String::new(),
        host: None,
        segments: None,
    };
    assert_eq!(GitUrl::from_parts(parts), mk_url("", "", "", "data", ""));
}

#[test]
fn from_parts_with_zero_segments() {
    let parts = UrlParts {
        scheme: String::from("https"),
        username: String::from("u"),
        host: Some(String::from("h")),
        segments: Some(vec![]),
    };
    assert_eq!(GitUrl::from_parts(parts), mk_url("h", "", "", "https", "u"));
}

#[test]
fn from_parts_with_three_segments() {
    let parts = UrlParts {
        scheme: String::from("https"),
        username: String::from("user"),
        host: Some(String::from("host")),
        segments: Some(vec![String::from("org1"), String::from("org2"), String::from("repo.git")]),
    };
    assert_eq!(GitUrl::from_parts(parts), mk_url("host", "org1/org2", "repo.git", "https", "user"));
}
