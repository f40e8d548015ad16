use upgit::git_cred::GitCred;
use upgit::prompt::{
    after_verify, home_key_path, judge_entry, pick, plain_from_entries, ssh_from_entry, verdict,
    what_to_ask, Ask, Entry, KeygenOutput, PassStep, SshVerify,
};

fn key(path: &str) -> GitCred {
    GitCred::Ssh(String::from(path), None)
}

#[test]
fn password_is_asked_for_a_plaintext_challenge() {
    assert_eq!(what_to_ask(false, &vec![]), Ask::Password);
    assert_eq!(what_to_ask(false, &vec![key("/a"), key("/b")]), Ask::Password);
}

#[test]
fn passphrase_is_asked_without_keys() {
    assert_eq!(what_to_ask(true, &vec![]), Ask::Passphrase);
}

#[test]
fn a_single_key_is_taken_without_asking() {
    assert_eq!(what_to_ask(true, &vec![key("/a")]), Ask::Take(key("/a")));
}

#[test]
fn several_keys_are_a_choice() {
    assert_eq!(what_to_ask(true, &vec![key("/a"), key("/b")]), Ask::Choose);
}

#[test]
fn pick_counts_from_one() {
    let keys = vec![key("/a"), key("/b"), key("/c")];
    assert_eq!(pick(&keys, "1"), Some(key("/a")));
    assert_eq!(pick(&keys, "2"), Some(key("/b")));
    assert_eq!(pick(&keys, "3"), Some(key("/c")));
    assert_eq!(pick(&keys, "+2"), Some(key("/b")));
    assert_eq!(pick(&keys, "003"), Some(key("/c")));
}

#[test]
fn pick_refuses_what_names_no_choice() {
    let keys = vec![key("/a"), key("/b"), key("/c")];
    assert_eq!(pick(&keys, "0"), None);
    assert_eq!(pick(&keys, "4"), None);
    assert_eq!(pick(&keys, ""), None);
    assert_eq!(pick(&keys, "two"), None);
    assert_eq!(pick(&keys, " 2"), None);
    assert_eq!(pick(&keys, "-1"), None);
    assert_eq!(pick(&keys, "99999999999999999999999999"), None);
    assert_eq!(pick(&vec![], "1"), None);
}

#[test]
fn password_entries_must_agree() {
    assert_eq!(
        plain_from_entries(String::from("pw"), &String::from("pw")),
        Some(GitCred::Plain(String::from("pw")))
    );
    assert_eq!(plain_from_entries(String::from("pw"), &String::from("pW")), None);
    assert_eq!(
        plain_from_entries(String::new(), &String::new()),
        Some(GitCred::Plain(String::new()))
    );
}

#[test]
fn empty_passphrase_is_no_passphrase() {
    assert_eq!(
        ssh_from_entry(String::from("/k"), String::new()),
        GitCred::Ssh(String::from("/k"), None)
    );
    assert_eq!(
        ssh_from_entry(String::from("/k"), String::from("pp")),
        GitCred::Ssh(String::from("/k"), Some(String::from("pp")))
    );
}

#[test]
fn home_key_path_is_under_dot_ssh() {
    assert_eq!(home_key_path("/home/me"), "/home/me/.ssh/id_rsa");
    assert_eq!(home_key_path(""), "/.ssh/id_rsa");
}

#[test]
fn entries_are_judged() {
    let a = String::from("a");
    let b = String::from("b");
    let none = String::new();
    assert_eq!(judge_entry(&a, &a, true), Entry::Accepted);
    assert_eq!(judge_entry(&a, &b, true), Entry::Mismatch);
    assert_eq!(judge_entry(&a, &b, false), Entry::Mismatch);
    assert_eq!(judge_entry(&none, &none, true), Entry::Missing);
    assert_eq!(judge_entry(&none, &none, false), Entry::Accepted);
    assert_eq!(judge_entry(&none, &a, true), Entry::Mismatch);
}

#[test]
fn probe_verdicts() {
    let out = |utf8, printed, success| Some(KeygenOutput { utf8, printed, success });
    assert_eq!(verdict(false, None), SshVerify::Dunno);
    assert_eq!(verdict(false, out(true, 10, true)), SshVerify::Dunno);
    assert_eq!(verdict(true, None), SshVerify::Good);
    assert_eq!(verdict(true, out(true, 10, true)), SshVerify::Good);
    assert_eq!(verdict(true, out(true, 0, true)), SshVerify::Bad);
    assert_eq!(verdict(true, out(true, 10, false)), SshVerify::Bad);
    assert_eq!(verdict(true, out(false, 10, false)), SshVerify::Good);
}

#[test]
fn steps_after_a_probe() {
    assert_eq!(after_verify(SshVerify::Good), PassStep::Accept);
    assert_eq!(after_verify(SshVerify::Dunno), PassStep::Confirm);
    assert_eq!(after_verify(SshVerify::Bad), PassStep::Retry);
}
