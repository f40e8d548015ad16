use upgit::creds::{
    callback_request, callback_user, challenge, git_cred_to_cred, unsupported_challenge, Challenge,
};
use upgit::git_cred::{CredSet, GitCred};

fn key(path: &str, pass: Option<&str>) -> GitCred {
    GitCred::Ssh(String::from(path), pass.map(String::from))
}

fn plain(pass: &str) -> GitCred {
    GitCred::Plain(String::from(pass))
}

#[test]
fn credentials_are_the_same_by_variant_and_fields() {
    assert!(plain("a").same(&plain("a")));
    assert!(!plain("a").same(&plain("b")));
    assert!(!plain("a").same(&key("a", None)));
    assert!(key("/k", None).same(&key("/k", None)));
    assert!(!key("/k", None).same(&key("/k", Some(""))));
    assert!(key("/k", Some("p")).same(&key("/k", Some("p"))));
    assert!(!key("/k", Some("p")).same(&key("/k", Some("q"))));
    assert!(!key("/k", Some("p")).same(&key("/j", Some("p"))));
    assert!(key("/k", None).is_ssh());
    assert!(!plain("a").is_ssh());
    assert_eq!(key("/k", Some("p")).clone(), key("/k", Some("p")));
}

#[test]
fn cred_set_keeps_order_and_drops_repeats() {
    let mut set = CredSet::new();
    assert_eq!(set.len(), 0);
    set.insert(plain("a"));
    set.insert(key("/k", None));
    set.insert(plain("a"));
    assert_eq!(set.len(), 2);
    assert_eq!(*set.get(0), plain("a"));
    assert_eq!(*set.get(1), key("/k", None));
    assert!(set.contains(&plain("a")));
    assert!(!set.contains(&plain("b")));
    let copy = set.clone();
    assert_eq!(copy.len(), 2);
    assert_eq!(*copy.get(1), key("/k", None));
}

#[test]
fn cred_set_difference_keeps_the_untried() {
    let mut keys = CredSet::new();
    keys.insert(key("/1", None));
    keys.insert(key("/2", None));
    keys.insert(key("/3", None));
    let mut tried = CredSet::new();
    tried.insert(key("/2", None));
    tried.insert(plain("x"));
    assert_eq!(keys.difference(&tried), vec![key("/1", None), key("/3", None)]);
    assert_eq!(keys.difference(&CredSet::new()).len(), 3);
    assert!(CredSet::new().difference(&tried).is_empty());
}

#[test]
fn challenge_prefers_the_ssh_key() {
    assert_eq!(challenge(true, true), Challenge::Ssh);
    assert_eq!(challenge(true, false), Challenge::Ssh);
    assert_eq!(challenge(false, true), Challenge::Plain);
    assert_eq!(challenge(false, false), Challenge::Unsupported);
}

#[test]
fn ssh_user_defaults_to_git() {
    assert_eq!(callback_user(Some("me"), true), Some(String::from("me")));
    assert_eq!(callback_user(None, true), Some(String::from("git")));
    assert_eq!(callback_user(Some("me"), false), Some(String::from("me")));
    assert_eq!(callback_user(None, false), None);
}

#[test]
fn password_becomes_a_user_and_password_credential() {
    let cred = git_cred_to_cred(String::from("me"), plain("pw")).unwrap();
    assert_eq!(cred.credtype(), git2::CredentialType::USER_PASS_PLAINTEXT.bits());
    assert!(cred.has_username());
}

#[test]
fn key_becomes_an_ssh_key_credential() {
    let cred = git_cred_to_cred(String::from("git"), key("/home/me/.ssh/id_rsa", Some("pp"))).unwrap();
    assert_eq!(cred.credtype(), git2::CredentialType::SSH_KEY.bits());
    let bare = git_cred_to_cred(String::from("git"), key("/home/me/.ssh/id_rsa", None)).unwrap();
    assert_eq!(bare.credtype(), git2::CredentialType::SSH_KEY.bits());
}

#[test]
fn text_with_nul_gives_no_credential() {
    assert!(git_cred_to_cred(String::from("me"), plain("p\0w")).is_err());
    assert!(git_cred_to_cred(String::from("m\0e"), key("/k", None)).is_err());
}

#[test]
fn unsupported_challenge_says_what_is_supported() {
    assert_eq!(
        unsupported_challenge().message(),
        "Unable to select a credential type, only plaintext or ssh key are supported at this time."
    );
}

#[test]
fn ordinary_texts_always_give_a_credential() {
    assert!(git_cred_to_cred(String::new(), plain("")).is_ok());
    assert!(git_cred_to_cred(String::from("me"), key("", None)).is_ok());
    assert!(git_cred_to_cred(String::from("me"), key("/no/such/key", Some(""))).is_ok());
    assert!(git_cred_to_cred(String::from("me"), key("/k", Some("p\0"))).is_err());
    assert!(git_cred_to_cred(String::from("me"), key("/k\0", None)).is_err());
}

#[test]
fn request_for_an_ssh_key() {
    let request = callback_request("git@github.com:org/repo.git", None, true, true).unwrap();
    assert_eq!(request.user, "git");
    assert!(request.is_ssh);
    assert_eq!(request.git_url.domain, "github.com");
    assert_eq!(request.git_url.org, "org");
    assert_eq!(request.git_url.repo, "repo.git");
    let named = callback_request("git@github.com:org/repo.git", Some("me"), true, false).unwrap();
    assert_eq!(named.user, "me");
}

#[test]
fn request_for_a_password() {
    let request =
        callback_request("https://me@host.example/org/repo.git", Some("me"), false, true).unwrap();
    assert_eq!(request.user, "me");
    assert!(!request.is_ssh);
    assert_eq!(request.git_url.scheme, "https");
    assert_eq!(request.git_url.username, "me");
    assert_eq!(request.git_url.org, "org");
}

#[test]
fn request_of_neither_kind_fails() {
    let err = callback_request("https://me@host.example/org/repo.git", Some("me"), false, false)
        .unwrap_err();
    assert_eq!(err, unsupported_challenge());
}

#[test]
fn password_request_without_user_fails() {
    let err =
        callback_request("https://host.example/org/repo.git", None, false, true).unwrap_err();
    assert_eq!(err.message(), "no username available in git url");
}

#[test]
fn request_for_an_unreadable_remote_fails() {
    let err = callback_request("https://", None, true, false).unwrap_err();
    assert_eq!(err.message(), "Expected url \"https://\" to parse :(");
    let err = callback_request("https://", Some("me"), false, true).unwrap_err();
    assert_eq!(err.message(), "Expected url to parse :(");
    let err = callback_request("https://", None, false, false).unwrap_err();
    assert_eq!(err, unsupported_challenge());
}
