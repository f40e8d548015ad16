//! What a run is configured with, and the decisions taken while the operator
//! enters it.

use vstd::prelude::*;
use vstd::string::*;

verus! {

/// How widely a credential may be reused between clones. Each level allows
/// what the one before it allows, and more.
#[derive(Debug, Clone, Copy, PartialEq, Eq, PartialOrd, Ord, Structural)]
pub enum Share {
    /// No reuse at all; configured defaults are ignored.
    Never,
    /// The configured default credentials may be reused.
    Defaults,
    /// Clones of one repository may reuse each other's credential.
    Duplicate,
    /// Repositories of one organization may reuse each other's credential.
    Org,
    /// Repositories with one scheme, user and host may reuse each other's
    /// credential.
    Domain,
}

impl Share {
    /// The place of the level in the order, from 0 for `Never`.
    pub open spec fn rank(self) -> int {
        match self {
            Share::Never => 0,
            Share::Defaults => 1,
            Share::Duplicate => 2,
            Share::Org => 3,
            Share::Domain => 4,
        }
    }

    /// Whether this level allows everything that `floor` allows.
    pub open spec fn allows(self, floor: Share) -> bool {
        self.rank() >= floor.rank()
    }

    /// The place of the level in the order.
    pub fn level(&self) -> (r: u8)
        ensures
            r == self.rank(),
    {
        match self {
            Share::Never => 0,
            Share::Defaults => 1,
            Share::Duplicate => 2,
            Share::Org => 3,
            Share::Domain => 4,
        }
    }

    /// Whether this level allows everything that `floor` allows.
    pub fn at_least(&self, floor: Share) -> (r: bool)
        ensures
            r == self.allows(floor),
    {
        self.level() >= floor.level()
    }
}

/// The level named by a configuration word.
pub open spec fn share_of(x: Seq<char>) -> Share {
    if x == "none"@ {
        Share::Never
    } else if x == "default"@ {
        Share::Defaults
    } else if x == "duplicate"@ {
        Share::Duplicate
    } else if x == "org"@ {
        Share::Org
    } else if x == "domain"@ {
        Share::Domain
    } else {
        Share::Defaults
    }
}

/// Reads a sharing level from its configuration word. An unknown word means
/// `Defaults`.
pub fn str_to_share(x: &str) -> (r: Share)
    ensures
        r == share_of(x@),
{
    let word = String::from_str(x);
    if word == String::from_str("none") {
        Share::Never
    } else if word == String::from_str("default") {
        Share::Defaults
    } else if word == String::from_str("duplicate") {
        Share::Duplicate
    } else if word == String::from_str("org") {
        Share::Org
    } else if word == String::from_str("domain") {
        Share::Domain
    } else {
        Share::Defaults
    }
}

/// The level that a run is configured with: what the command line names,
/// else what the environment names, else `Defaults`.
pub fn get_share(from_args: Option<&str>, from_env: Option<&str>) -> (r: Share)
    ensures
        r == match from_args {
            Some(word) => share_of(word@),
            None => match from_env {
                Some(word) => share_of(word@),
                None => Share::Defaults,
            },
        },
{
    if let Some(share_str) = from_args {
        return str_to_share(share_str);
    }
    if let Some(share_str) = from_env {
        return str_to_share(share_str);
    }
    Share::Defaults
}

/// Where the path of the default SSH key comes from.
#[derive(Debug, PartialEq, Eq)]
pub enum KeyPath {
    /// No default key was asked for: the path is empty.
    Unset,
    /// A default key was asked for without a path: the key under the home
    /// directory is meant.
    Home,
    /// The path that was given.
    Given(String),
}

/// The mathematical content of a `KeyPath`.
pub enum KeyPathView {
    Unset,
    Home,
    Given(Seq<char>),
}

impl View for KeyPath {
    type V = KeyPathView;

    open spec fn view(&self) -> KeyPathView {
        match self {
            KeyPath::Unset => KeyPathView::Unset,
            KeyPath::Home => KeyPathView::Home,
            KeyPath::Given(p) => KeyPathView::Given(p@),
        }
    }
}

/// Decides where the path of the default SSH key comes from, given the value
/// of the option that asks for a default key.
pub fn default_ssh_source(value: Option<&str>) -> (r: KeyPath)
    ensures
        r@ == match value {
            Some(path) => if path@.len() == 0 {
                KeyPathView::Home
            } else {
                KeyPathView::Given(path@)
            },
            None => KeyPathView::Unset,
        },
{
    match value {
        Some(path) => if path.is_empty() {
            KeyPath::Home
        } else {
            KeyPath::Given(String::from_str(path))
        },
        None => KeyPath::Unset,
    }
}

/// The configuration of one run.
#[derive(Debug)]
pub struct Config {
    /// Pre-verified SSH keys: key path and passphrase, in the order given.
    /// A pair that is given twice counts once.
    pub ssh: Vec<(String, String)>,
    /// Repositories with a known password: remote URL and password, in the
    /// order given. Of two passwords for one repository the later stays.
    pub plain: Vec<(String, String)>,
    /// The default password for remotes that ask for one.
    pub default_plain: Option<String>,
    /// The default SSH key: its path, empty for none, and its passphrase.
    pub default_ssh: (String, Option<String>),
    /// The directories whose subdirectories are the clones to update.
    pub git_dirs: Vec<String>,
    /// How widely credentials may be reused.
    pub share: Share,
}

/// The mathematical content of a `Config`.
pub struct ConfigView {
    pub ssh: Seq<(Seq<char>, Seq<char>)>,
    pub plain: Seq<(Seq<char>, Seq<char>)>,
    pub default_plain: Option<Seq<char>>,
    pub default_ssh: (Seq<char>, Option<Seq<char>>),
    pub git_dirs: Seq<Seq<char>>,
    pub share: Share,
}

impl DeepView for Config {
    type V = ConfigView;

    open spec fn deep_view(&self) -> ConfigView {
        ConfigView {
            ssh: self.ssh.deep_view(),
            plain: self.plain.deep_view(),
            default_plain: self.default_plain.deep_view(),
            default_ssh: self.default_ssh.deep_view(),
            git_dirs: self.git_dirs.deep_view(),
            share: self.share,
        }
    }
}

} // verus!
