//! Credentials, and what one clone has tried of them.

use vstd::prelude::*;
use vstd::string::*;

verus! {

/// A credential that can be offered to a remote.
#[derive(Debug, PartialEq, Eq, Hash)]
pub enum GitCred {
    /// A password for the user that the remote URL names.
    Plain(String),
    /// The path of an SSH private key, and its passphrase if it has one.
    Ssh(String, Option<String>),
}

/// The mathematical content of a credential. Two credentials are the same
/// when they are the same variant with the same texts; a missing passphrase
/// differs from an empty one.
pub enum CredView {
    Plain(Seq<char>),
    Ssh(Seq<char>, Option<Seq<char>>),
}

impl View for GitCred {
    type V = CredView;

    open spec fn view(&self) -> CredView {
        match self {
            GitCred::Plain(pass) => CredView::Plain(pass@),
            GitCred::Ssh(path, pass) => CredView::Ssh(path@, pass.deep_view()),
        }
    }
}

impl DeepView for GitCred {
    type V = CredView;

    open spec fn deep_view(&self) -> CredView {
        self@
    }
}

impl Clone for GitCred {
    fn clone(&self) -> (r: Self)
        ensures
            r@ == self@,
    {
        match self {
            GitCred::Plain(pass) => GitCred::Plain(pass.clone()),
            GitCred::Ssh(path, pass) => {
                let pass = match pass {
                    Some(p) => Some(p.clone()),
                    None => None,
                };
                GitCred::Ssh(path.clone(), pass)
            },
        }
    }
}

impl GitCred {
    /// Whether two credentials are the same.
    pub fn same(&self, other: &GitCred) -> (r: bool)
        ensures
            r == (self@ == other@),
    {
        match (self, other) {
            (GitCred::Plain(a), GitCred::Plain(b)) => *a == *b,
            (GitCred::Ssh(a, p), GitCred::Ssh(b, q)) => {
                if *a == *b {
                    match (p, q) {
                        (Some(x), Some(y)) => *x == *y,
                        (None, None) => true,
                        _ => false,
                    }
                } else {
                    false
                }
            },
            _ => false,
        }
    }

    /// Whether this is an SSH key.
    pub fn is_ssh(&self) -> (r: bool)
        ensures
            r == (self@ is Ssh),
    {
        match self {
            GitCred::Ssh(_, _) => true,
            GitCred::Plain(_) => false,
        }
    }
}

/// Whether no credential occurs twice in `s`.
pub open spec fn distinct(s: Seq<CredView>) -> bool {
    forall|i: int, j: int| 0 <= i < j < s.len() ==> s[i] != s[j]
}

/// `s` with `c` added at the end, unless `c` is in it already.
pub open spec fn with_cred(s: Seq<CredView>, c: CredView) -> Seq<CredView> {
    if s.contains(c) {
        s
    } else {
        s.push(c)
    }
}

/// The credentials of `s` that are not in `tried`, in the order of `s`.
pub open spec fn untried(s: Seq<CredView>, tried: Seq<CredView>) -> Seq<CredView> {
    s.filter(|c: CredView| !tried.contains(c))
}

/// Where nothing has been tried, every credential is untried.
pub proof fn lemma_untried_all(s: Seq<CredView>)
    ensures
        untried(s, Seq::empty()) == s,
    decreases s.len(),
{
    reveal(Seq::filter);
    if s.len() != 0 {
        lemma_untried_all(s.drop_last());
    }
}

/// A set of credentials that remembers the order in which they came.
#[derive(Debug)]
pub struct CredSet {
    items: Vec<GitCred>,
}

impl View for CredSet {
    type V = Seq<CredView>;

    closed spec fn view(&self) -> Seq<CredView> {
        self.items.deep_view()
    }
}

impl DeepView for CredSet {
    type V = Seq<CredView>;

    open spec fn deep_view(&self) -> Seq<CredView> {
        self@
    }
}

impl Clone for CredSet {
    fn clone(&self) -> (r: Self)
        ensures
            r@ == self@,
    {
        let mut items: Vec<GitCred> = Vec::new();
        let mut i: usize = 0;
        while i < self.items.len()
            invariant
                i <= self.items.len(),
                items.deep_view() == self.items.deep_view().take(i as int),
            decreases self.items.len() - i,
        {
            let ghost before = items.deep_view();
            items.push(self.items[i].clone());
            proof {
                assert(items.deep_view() =~= before.push(self.items[i as int]@));
            }
            i = i + 1;
        }
        CredSet { items }
    }
}

impl CredSet {
    /// Whether no credential occurs twice.
    pub open spec fn wf(&self) -> bool {
        distinct(self@)
    }

    /// The empty set.
    pub fn new() -> (r: Self)
        ensures
            r@ == Seq::<CredView>::empty(),
            r.wf(),
    {
        CredSet { items: Vec::new() }
    }

    /// How many credentials the set holds.
    pub fn len(&self) -> (r: usize)
        ensures
            r == self@.len(),
    {
        self.items.len()
    }

    /// The credential that came `i`-th.
    pub fn get(&self, i: usize) -> (r: &GitCred)
        requires
            i < self@.len(),
        ensures
            r@ == self@[i as int],
    {
        &self.items[i]
    }

    /// Whether `c` is in the set.
    pub fn contains(&self, c: &GitCred) -> (r: bool)
        ensures
            r == self@.contains(c@),
    {
        let mut i: usize = 0;
        while i < self.items.len()
            invariant
                i <= self.items.len(),
                forall|j: int| 0 <= j < i ==> self@[j] != c@,
            decreases self.items.len() - i,
        {
            if self.items[i].same(c) {
                assert(self@[i as int] == c@);
                return true;
            }
            i = i + 1;
        }
        false
    }

    /// Adds `c` unless it is there already.
    pub fn insert(&mut self, c: GitCred)
        requires
            old(self).wf(),
        ensures
            final(self)@ == with_cred(old(self)@, c@),
            final(self).wf(),
    {
        if !self.contains(&c) {
            self.items.push(c);
        }
    }

    /// The credentials of this set that are not in `tried`, in their order.
    pub fn difference(&self, tried: &CredSet) -> (r: Vec<GitCred>)
        ensures
            r.deep_view() == untried(self@, tried@),
    {
        let mut r: Vec<GitCred> = Vec::new();
        let mut i: usize = 0;
        let ghost keep = |c: CredView| !tried@.contains(c);
        while i < self.items.len()
            invariant
                i <= self.items.len(),
                keep == (|c: CredView| !tried@.contains(c)),
                r.deep_view() == self@.take(i as int).filter(keep),
            decreases self.items.len() - i,
        {
            proof {
                let now = self@.take(i + 1);
                assert(now.drop_last() =~= self@.take(i as int));
                reveal(Seq::filter);
            }
            if !tried.contains(&self.items[i]) {
                r.push(self.items[i].clone());
            }
            i = i + 1;
        }
        proof {
            assert(self@.take(self.items.len() as int) =~= self@);
        }
        r
    }
}

/// What the broker knows of one clone: the credential in use, and those that
/// the remote has rejected.
#[derive(Debug)]
pub struct RepoCred {
    pub active: GitCred,
    pub seen: CredSet,
}

/// The mathematical content of a `RepoCred`.
pub struct RepoCredView {
    pub active: CredView,
    pub seen: Seq<CredView>,
}

impl Clone for RepoCred {
    fn clone(&self) -> (r: Self)
        ensures
            r.deep_view() == self.deep_view(),
    {
        RepoCred { active: self.active.clone(), seen: self.seen.clone() }
    }
}

impl DeepView for RepoCred {
    type V = RepoCredView;

    open spec fn deep_view(&self) -> RepoCredView {
        RepoCredView { active: self.active@, seen: self.seen@ }
    }
}

} // verus!
