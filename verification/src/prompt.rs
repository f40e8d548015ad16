//! The decisions of the dialogue with the operator. Reading and printing are
//! the caller's; what an entry means is decided here.

use vstd::prelude::*;
use vstd::string::*;
use crate::git_cred::{CredView, GitCred};
use crate::string_ops::{decimal, opt_seq, parse_usize, str_to_opt};

verus! {

/// What to ask the operator for when no stored credential can be offered.
#[derive(Debug, PartialEq, Eq)]
pub enum Ask {
    /// Exactly one pre-verified key is left: take it without asking.
    Take(GitCred),
    /// Several pre-verified keys are left: show them numbered and ask for a
    /// number.
    Choose,
    /// No pre-verified key is left: ask for the passphrase of the key at the
    /// default path.
    Passphrase,
    /// The remote wants a password: ask for it, twice.
    Password,
}

/// The mathematical content of an `Ask`.
pub enum AskView {
    Take(CredView),
    Choose,
    Passphrase,
    Password,
}

impl View for Ask {
    type V = AskView;

    open spec fn view(&self) -> AskView {
        match self {
            Ask::Take(c) => AskView::Take(c@),
            Ask::Choose => AskView::Choose,
            Ask::Passphrase => AskView::Passphrase,
            Ask::Password => AskView::Password,
        }
    }
}

/// What to ask for, given the kind of challenge and the keys to choose from.
pub open spec fn ask_for(is_ssh: bool, keys: Seq<CredView>) -> AskView {
    if !is_ssh {
        AskView::Password
    } else if keys.len() == 0 {
        AskView::Passphrase
    } else if keys.len() == 1 {
        AskView::Take(keys[0])
    } else {
        AskView::Choose
    }
}

/// Decides what the operator is asked for.
pub fn what_to_ask(is_ssh: bool, keys: &Vec<GitCred>) -> (r: Ask)
    ensures
        r@ == ask_for(is_ssh, keys.deep_view()),
{
    if !is_ssh {
        Ask::Password
    } else if keys.len() == 0 {
        Ask::Passphrase
    } else if keys.len() == 1 {
        Ask::Take(keys[0].clone())
    } else {
        Ask::Choose
    }
}

/// The choice that an entry names in a list numbered from 1: the entry must
/// be a decimal number from 1 to the length of the list.
pub open spec fn picked(choices: Seq<CredView>, entry: Seq<char>) -> Option<CredView> {
    match decimal(entry) {
        Some(n) => if 1 <= n <= choices.len() {
            Some(choices[n - 1])
        } else {
            None
        },
        None => None,
    }
}

/// Reads the operator's choice from a numbered list. Gives nothing where the
/// entry names no choice, and the operator is to be asked again.
pub fn pick(choices: &Vec<GitCred>, entry: &str) -> (r: Option<GitCred>)
    ensures
        r.deep_view() == picked(choices.deep_view(), entry@),
{
    assert(choices.deep_view().len() == choices.len());
    match parse_usize(entry) {
        Some(n) => if 1 <= n && n <= choices.len() {
            Some(choices[n - 1].clone())
        } else {
            None
        },
        None => None,
    }
}

/// The password credential that two entries give: they must be the same.
pub fn plain_from_entries(new_pass: String, confirm_pass: &String) -> (r: Option<GitCred>)
    ensures
        r.deep_view() == if new_pass@ == confirm_pass@ {
            Some(CredView::Plain(new_pass@))
        } else {
            None
        },
{
    if new_pass == *confirm_pass {
        Some(GitCred::Plain(new_pass))
    } else {
        None
    }
}

/// The SSH credential for the key at `ssh_path` with the passphrase that was
/// entered. An empty entry means that the key has no passphrase.
pub fn ssh_from_entry(ssh_path: String, ssh_pass: String) -> (r: GitCred)
    ensures
        r@ == CredView::Ssh(ssh_path@, opt_seq(ssh_pass@)),
{
    GitCred::Ssh(ssh_path, str_to_opt(ssh_pass))
}

/// The path of the key that is assumed where none is named:
/// `.ssh/id_rsa` under the home directory.
pub fn home_key_path(home: &str) -> (r: String)
    ensures
        r@ == home@ + "/.ssh/id_rsa"@,
{
    String::from_str(home).concat("/.ssh/id_rsa")
}

/// What a pair of entries, the second confirming the first, amounts to.
#[derive(Debug, Clone, Copy, PartialEq, Eq, Structural)]
pub enum Entry {
    /// The entries agree and can be used.
    Accepted,
    /// The entries differ: ask again.
    Mismatch,
    /// The entries agree but are empty where something is required: say so,
    /// and ask again.
    Missing,
}

/// Judges an entry and its confirmation.
pub fn judge_entry(response: &String, confirm: &String, required: bool) -> (r: Entry)
    ensures
        r == if response@ != confirm@ {
            Entry::Mismatch
        } else if required && response@.len() == 0 {
            Entry::Missing
        } else {
            Entry::Accepted
        },
{
    if !(*response == *confirm) {
        Entry::Mismatch
    } else if required && response.as_str().is_empty() {
        Entry::Missing
    } else {
        Entry::Accepted
    }
}

/// What a probe of a key with a passphrase found.
#[derive(Debug, Clone, Copy, PartialEq, Eq, Structural)]
pub enum SshVerify {
    /// The probe could not be set up.
    Dunno,
    /// Nothing speaks against the passphrase.
    Good,
    /// The key did not open with the passphrase.
    Bad,
}

/// What the key tool left behind, where it ran.
#[derive(Debug, Clone, Copy, PartialEq, Eq, Structural)]
pub struct KeygenOutput {
    /// Whether what it printed is UTF-8.
    pub utf8: bool,
    /// How many bytes it printed.
    pub printed: usize,
    /// Whether it reported success.
    pub success: bool,
}

/// The verdict of a probe. Without the helper script nothing is known. Where
/// the tool ran and printed readable text, the passphrase is good if the tool
/// succeeded and printed something, and bad otherwise. Where the tool did not
/// run, or printed what cannot be read, the passphrase is given the benefit
/// of the doubt.
pub fn verdict(script_ready: bool, output: Option<KeygenOutput>) -> (r: SshVerify)
    ensures
        r == if !script_ready {
            SshVerify::Dunno
        } else {
            match output {
                Some(o) => if !o.utf8 {
                    SshVerify::Good
                } else if o.printed > 0 && o.success {
                    SshVerify::Good
                } else {
                    SshVerify::Bad
                },
                None => SshVerify::Good,
            }
        },
{
    if !script_ready {
        return SshVerify::Dunno;
    }
    if let Some(o) = output {
        if o.utf8 {
            if o.printed > 0 && o.success {
                return SshVerify::Good;
            }
            return SshVerify::Bad;
        }
    }
    SshVerify::Good
}

/// What follows a probe of an entered passphrase.
#[derive(Debug, Clone, Copy, PartialEq, Eq, Structural)]
pub enum PassStep {
    /// Use the passphrase.
    Accept,
    /// Ask for the passphrase once more, and use it if the entries agree.
    Confirm,
    /// Ask for another passphrase.
    Retry,
}

/// Decides what follows a probe.
pub fn after_verify(found: SshVerify) -> (r: PassStep)
    ensures
        r == match found {
            SshVerify::Good => PassStep::Accept,
            SshVerify::Dunno => PassStep::Confirm,
            SshVerify::Bad => PassStep::Retry,
        },
{
    match found {
        SshVerify::Good => PassStep::Accept,
        SshVerify::Dunno => PassStep::Confirm,
        SshVerify::Bad => PassStep::Retry,
    }
}

} // verus!
