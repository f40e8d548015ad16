//! The credential broker: for every authentication challenge of a clone it
//! decides which credential to offer, or that the operator must be asked.
//!
//! A second challenge for the same clone path means that the remote rejected
//! what was offered before. Nothing else tells the broker so.

use vstd::prelude::*;
use vstd::string::*;
use crate::config::{Config, ConfigView, Share};
use crate::git_cred::{
    distinct, lemma_untried_all, untried, with_cred, CredSet, CredView, GitCred, RepoCred,
    RepoCredView,
};
use crate::git_url::{parse_url, remote_identity, GitUrl, GitUrlView};
use crate::graph::{
    ensure_node, get_shared_cred, graph_wf, insert, leaf_at, lemma_graph_clone,
    lemma_repo_at_wf, lemma_shared_cred_untried, lemma_shared_in_repo, lemma_with_leaf_at,
    lemma_with_leaf_keeps_nodes, lemma_with_leaf_wf, lemma_with_node_idempotent,
    lemma_with_node_keeps, lemma_with_node_wf, lookup, repo_at, same_node, set_leaf_at,
    shared_cred, shared_in_repo, url_to_domain, usable, with_leaf, with_node, GraphView,
    RepoGraph,
};
use crate::string_ops::{opt_seq, str_to_opt};
use crate::table::{key_index, lemma_key_index_bounds, Table};

verus! {

/// The broker's state: the defaults and pre-verified keys that it was
/// configured with, the sharing policy, and the credential graph.
#[derive(Debug)]
pub struct Storage {
    default_ssh: Option<GitCred>,
    default_plain: Option<GitCred>,
    repo_graph: RepoGraph,
    keys: CredSet,
    share: Share,
}

/// The mathematical content of a `Storage`.
pub struct StorageView {
    pub default_ssh: Option<CredView>,
    pub default_plain: Option<CredView>,
    pub graph: GraphView,
    pub keys: Seq<CredView>,
    pub share: Share,
}

impl View for Storage {
    type V = StorageView;

    closed spec fn view(&self) -> StorageView {
        StorageView {
            default_ssh: self.default_ssh.deep_view(),
            default_plain: self.default_plain.deep_view(),
            graph: self.repo_graph.deep_view(),
            keys: self.keys@,
            share: self.share,
        }
    }
}

impl Clone for Storage {
    fn clone(&self) -> (r: Self)
        ensures
            r@ == self@,
    {
        let default_ssh = match &self.default_ssh {
            Some(c) => Some(c.clone()),
            None => None,
        };
        let default_plain = match &self.default_plain {
            Some(c) => Some(c.clone()),
            None => None,
        };
        let repo_graph = self.repo_graph.clone();
        proof {
            lemma_graph_clone(self.repo_graph, repo_graph);
        }
        Storage { default_ssh, default_plain, repo_graph, keys: self.keys.clone(), share: self.share }
    }
}

/// Whether a state is valid: the default SSH credential is an SSH key, the
/// default plaintext one a password, the pre-verified keys are distinct SSH
/// keys, and no key occurs twice in any table of the graph.
pub open spec fn storage_wf(s: StorageView) -> bool {
    &&& s.default_ssh matches Some(c) ==> c is Ssh
    &&& s.default_plain matches Some(c) ==> c is Plain
    &&& distinct(s.keys)
    &&& forall|i: int| 0 <= i < s.keys.len() ==> #[trigger] s.keys[i] is Ssh
    &&& graph_wf(s.graph)
}

/// What the broker answers to a challenge.
#[derive(Debug)]
pub enum Negotiation {
    /// Offer this credential. The broker has made it the clone's active one.
    Offer(GitCred),
    /// Nothing that is stored can be offered: ask the operator, and hand the
    /// answer to `Storage::adopt`. For an SSH challenge these are the
    /// pre-verified keys that the clone has not tried, to choose from.
    Prompt(Vec<GitCred>),
}

/// The mathematical content of a `Negotiation`.
pub enum StepView {
    Offer(CredView),
    Prompt(Seq<CredView>),
}

impl View for Negotiation {
    type V = StepView;

    open spec fn view(&self) -> StepView {
        match self {
            Negotiation::Offer(c) => StepView::Offer(c@),
            Negotiation::Prompt(keys) => StepView::Prompt(keys.deep_view()),
        }
    }
}

/// The state with another graph.
pub open spec fn with_graph(s: StorageView, graph: GraphView) -> StorageView {
    StorageView {
        default_ssh: s.default_ssh,
        default_plain: s.default_plain,
        graph,
        keys: s.keys,
        share: s.share,
    }
}

/// The configured default for the kind of credential that is asked for.
/// Under `Never` the defaults are ignored.
pub open spec fn default_for(s: StorageView, is_ssh: bool) -> Option<CredView> {
    if !s.share.allows(Share::Defaults) {
        None
    } else if is_ssh {
        s.default_ssh
    } else {
        s.default_plain
    }
}

/// The credential that can be offered without asking: one shared by another
/// clone, at the narrowest scope of the policy that has one not in `seen`,
/// else the default, unless it is in `seen`.
pub open spec fn ready_cred(
    s: StorageView,
    graph: GraphView,
    u: GitUrlView,
    path: Seq<char>,
    is_ssh: bool,
    seen: Seq<CredView>,
) -> Option<CredView> {
    match shared_cred(graph, s.share, u, path, seen) {
        Some(c) => Some(c),
        None => match default_for(s, is_ssh) {
            Some(d) => if seen.contains(d) {
                None
            } else {
                Some(d)
            },
            None => None,
        },
    }
}

/// The keys to choose from when the operator is asked.
pub open spec fn choices(s: StorageView, is_ssh: bool, seen: Seq<CredView>) -> Seq<CredView> {
    if is_ssh {
        untried(s.keys, seen)
    } else {
        Seq::empty()
    }
}

/// The broker's answer to a challenge for the clone of `u` at `path`, and the
/// state after it.
///
/// The graph first gets the nodes of `u`. Where it knows the clone, the
/// challenge is a retry: the clone's active credential joins its rejected
/// ones, and what is offered is not among them. Where it does not, nothing is
/// excluded, and the clone is filed with what is offered. Where nothing can
/// be offered the operator is asked; a known clone keeps its active
/// credential until the answer is adopted, an unknown one stays unfiled.
pub open spec fn negotiate(s: StorageView, u: GitUrlView, path: Seq<char>, is_ssh: bool) -> (
    StorageView,
    StepView,
) {
    let graph = with_node(s.graph, u);
    match leaf_at(graph, u, path) {
        Some(leaf) => {
            let seen = with_cred(leaf.seen, leaf.active);
            match ready_cred(s, graph, u, path, is_ssh, seen) {
                Some(c) => (
                    with_graph(s, with_leaf(graph, u, path, RepoCredView { active: c, seen })),
                    StepView::Offer(c),
                ),
                None => (
                    with_graph(
                        s,
                        with_leaf(graph, u, path, RepoCredView { active: leaf.active, seen }),
                    ),
                    StepView::Prompt(choices(s, is_ssh, seen)),
                ),
            }
        },
        None => match ready_cred(s, graph, u, path, is_ssh, Seq::empty()) {
            Some(c) => (
                with_graph(
                    s,
                    with_leaf(graph, u, path, RepoCredView { active: c, seen: Seq::empty() }),
                ),
                StepView::Offer(c),
            ),
            None => (with_graph(s, graph), StepView::Prompt(choices(s, is_ssh, Seq::empty()))),
        },
    }
}

/// The state after the operator's answer `cred` has become the active
/// credential of the clone of `u` at `path`. What the clone has rejected
/// stays.
pub open spec fn adopted(s: StorageView, u: GitUrlView, path: Seq<char>, cred: CredView) -> StorageView {
    let graph = with_node(s.graph, u);
    let seen = match leaf_at(graph, u, path) {
        Some(leaf) => leaf.seen,
        None => Seq::empty(),
    };
    with_graph(s, with_leaf(graph, u, path, RepoCredView { active: cred, seen }))
}

/// Whether the clone of `u` at `path` has rejected `cred` before.
pub open spec fn tried_before(s: StorageView, u: GitUrlView, path: Seq<char>, cred: CredView) -> bool {
    match leaf_at(s.graph, u, path) {
        Some(leaf) => leaf.seen.contains(cred),
        None => false,
    }
}

/// After an answer the graph knows the clone, unless the operator must be
/// asked about a clone that it did not know. What the clone had rejected
/// stays rejected; on a retry the credential that was active joins it. A
/// credential that is offered is the clone's active one, and the clone has
/// not rejected it.
pub proof fn lemma_offer_is_untried(s: StorageView, u: GitUrlView, path: Seq<char>, is_ssh: bool)
    ensures
        ({
            let (after, step) = negotiate(s, u, path, is_ssh);
            let now = leaf_at(after.graph, u, path);
            &&& match leaf_at(s.graph, u, path) {
                Some(was) => now matches Some(leaf) && leaf.seen == with_cred(was.seen, was.active)
                    && (step is Prompt ==> leaf.active == was.active),
                None => now matches Some(leaf) ==> leaf.seen.len() == 0,
            }
            &&& step matches StepView::Offer(c) ==> now matches Some(leaf) && leaf.active == c
                && !leaf.seen.contains(c)
            &&& step is Prompt && leaf_at(s.graph, u, path) is None ==> now is None
        }),
{
    let graph = with_node(s.graph, u);
    lemma_with_node_keeps(s.graph, u, u, path);
    let seen = match leaf_at(graph, u, path) {
        Some(leaf) => with_cred(leaf.seen, leaf.active),
        None => Seq::empty(),
    };
    lemma_shared_cred_untried(graph, s.share, u, path, seen);
    match ready_cred(s, graph, u, path, is_ssh, seen) {
        Some(c) => {
            lemma_with_leaf_at(graph, u, path, RepoCredView { active: c, seen }, u, path);
        },
        None => {
            if let Some(leaf) = leaf_at(graph, u, path) {
                lemma_with_leaf_at(
                    graph,
                    u,
                    path,
                    RepoCredView { active: leaf.active, seen },
                    u,
                    path,
                );
            }
        },
    }
}

/// Where the operator is asked about a clone that the graph does not know,
/// an SSH challenge puts every pre-verified key up for choice, and a password
/// challenge none.
pub proof fn lemma_first_prompt_choices(s: StorageView, u: GitUrlView, path: Seq<char>, is_ssh: bool)
    requires
        leaf_at(s.graph, u, path) is None,
    ensures
        negotiate(s, u, path, is_ssh).1 matches StepView::Prompt(keys) ==> keys == if is_ssh {
            s.keys
        } else {
            Seq::empty()
        },
{
    lemma_with_node_keeps(s.graph, u, u, path);
    lemma_untried_all(s.keys);
}

/// A challenge for one clone changes nothing that the broker knows of any
/// other clone, takes no node and no clone out of the graph, and leaves the
/// defaults, the pre-verified keys and the policy as they are. The same holds
/// of adopting an answer.
pub proof fn lemma_other_clones_untouched(
    s: StorageView,
    u: GitUrlView,
    path: Seq<char>,
    is_ssh: bool,
    cred: CredView,
    v: GitUrlView,
    other: Seq<char>,
)
    ensures
        ({
            let after = negotiate(s, u, path, is_ssh).0;
            &&& after == with_graph(s, after.graph)
            &&& repo_at(after.graph, u) is Some
            &&& repo_at(s.graph, v) is Some ==> repo_at(after.graph, v) is Some
            &&& leaf_at(s.graph, v, other) is Some ==> leaf_at(after.graph, v, other) is Some
            &&& !(same_node(u, v) && other == path) ==> leaf_at(after.graph, v, other) == leaf_at(
                s.graph,
                v,
                other,
            )
        }),
        ({
            let after = adopted(s, u, path, cred);
            &&& after == with_graph(s, after.graph)
            &&& repo_at(s.graph, v) is Some ==> repo_at(after.graph, v) is Some
            &&& leaf_at(after.graph, u, path) matches Some(leaf) && leaf.active == cred
            &&& !(same_node(u, v) && other == path) ==> leaf_at(after.graph, v, other) == leaf_at(
                s.graph,
                v,
                other,
            )
        }),
{
    let graph = with_node(s.graph, u);
    lemma_with_node_keeps(s.graph, u, v, other);
    lemma_with_node_idempotent(s.graph, u);
    let seen = match leaf_at(graph, u, path) {
        Some(leaf) => with_cred(leaf.seen, leaf.active),
        None => Seq::empty(),
    };
    match ready_cred(s, graph, u, path, is_ssh, seen) {
        Some(c) => {
            let leaf = RepoCredView { active: c, seen };
            lemma_with_leaf_at(graph, u, path, leaf, v, other);
            lemma_with_leaf_keeps_nodes(graph, u, path, leaf, v);
        },
        None => {
            if let Some(was) = leaf_at(graph, u, path) {
                let leaf = RepoCredView { active: was.active, seen };
                lemma_with_leaf_at(graph, u, path, leaf, v, other);
                lemma_with_leaf_keeps_nodes(graph, u, path, leaf, v);
            }
        },
    }
    let kept = match leaf_at(graph, u, path) {
        Some(leaf) => leaf.seen,
        None => Seq::empty(),
    };
    let leaf = RepoCredView { active: cred, seen: kept };
    lemma_with_leaf_at(graph, u, path, leaf, v, other);
    lemma_with_leaf_at(graph, u, path, leaf, u, path);
    lemma_with_leaf_keeps_nodes(graph, u, path, leaf, v);
}

/// An answer leaves a valid state valid, and so does adopting the operator's
/// answer.
pub proof fn lemma_answers_keep_valid(
    s: StorageView,
    u: GitUrlView,
    path: Seq<char>,
    is_ssh: bool,
    cred: CredView,
)
    requires
        storage_wf(s),
    ensures
        storage_wf(negotiate(s, u, path, is_ssh).0),
        storage_wf(adopted(s, u, path, cred)),
{
    let graph = with_node(s.graph, u);
    let none = RepoCredView { active: cred, seen: Seq::empty() };
    lemma_with_node_wf(s.graph, u);
    lemma_with_node_keeps(s.graph, u, u, path);
    match leaf_at(graph, u, path) {
        Some(was) => {
            lemma_repo_at_wf(s.graph, u);
            let repo = repo_at(s.graph, u)->0;
            lemma_key_index_bounds(repo, path);
            assert(distinct(repo[key_index(repo, path)].1.seen));
            let seen = with_cred(was.seen, was.active);
            lemma_with_leaf_wf(graph, u, path, RepoCredView { active: cred, seen: was.seen });
            lemma_with_leaf_wf(graph, u, path, RepoCredView { active: was.active, seen });
            if let Some(c) = ready_cred(s, graph, u, path, is_ssh, seen) {
                lemma_with_leaf_wf(graph, u, path, RepoCredView { active: c, seen });
            }
        },
        None => {
            lemma_with_leaf_wf(graph, u, path, none);
            if let Some(c) = ready_cred(s, graph, u, path, is_ssh, Seq::empty()) {
                lemma_with_leaf_wf(graph, u, path, RepoCredView { active: c, seen: Seq::empty() });
            }
        },
    }
}

/// A second challenge for a clone, after a credential was offered for the
/// first, puts that credential among the clone's rejected ones before
/// anything is chosen; and whatever is offered the second time differs from
/// it.
pub proof fn lemma_retry_rejects_first(s: StorageView, u: GitUrlView, path: Seq<char>, is_ssh: bool)
    ensures
        ({
            let (first_state, first) = negotiate(s, u, path, is_ssh);
            let (second_state, second) = negotiate(first_state, u, path, is_ssh);
            first matches StepView::Offer(c1) ==> {
                &&& leaf_at(second_state.graph, u, path) matches Some(leaf) && leaf.seen.contains(c1)
                &&& second matches StepView::Offer(c2) ==> c2 != c1
            }
        }),
{
    let (first_state, first) = negotiate(s, u, path, is_ssh);
    lemma_offer_is_untried(s, u, path, is_ssh);
    lemma_offer_is_untried(first_state, u, path, is_ssh);
    if let StepView::Offer(c1) = first {
        let was = leaf_at(first_state.graph, u, path)->0;
        lemma_with_cred_has(was.seen, c1);
    }
}

/// A second challenge for a clone, after the operator's answer was adopted
/// for the first, puts that answer among the clone's rejected credentials;
/// and whatever is offered then differs from it.
pub proof fn lemma_retry_rejects_adopted(
    s: StorageView,
    u: GitUrlView,
    path: Seq<char>,
    cred: CredView,
    is_ssh: bool,
)
    ensures
        ({
            let (after, step) = negotiate(adopted(s, u, path, cred), u, path, is_ssh);
            &&& leaf_at(after.graph, u, path) matches Some(leaf) && leaf.seen.contains(cred)
            &&& step matches StepView::Offer(c) ==> c != cred
        }),
{
    let graph = with_node(s.graph, u);
    let seen = match leaf_at(graph, u, path) {
        Some(leaf) => leaf.seen,
        None => Seq::empty(),
    };
    lemma_with_leaf_at(graph, u, path, RepoCredView { active: cred, seen }, u, path);
    lemma_offer_is_untried(adopted(s, u, path, cred), u, path, is_ssh);
    lemma_with_cred_has(seen, cred);
}

/// A credential is in the set that it was added to.
pub proof fn lemma_with_cred_has(s: Seq<CredView>, c: CredView)
    ensures
        with_cred(s, c).contains(c),
        forall|x: CredView| s.contains(x) ==> with_cred(s, c).contains(x),
{
    if !s.contains(c) {
        assert(s.push(c)[s.len() as int] == c);
        assert forall|x: CredView| s.contains(x) implies s.push(c).contains(x) by {
            let i = choose|i: int| 0 <= i < s.len() && s[i] == x;
            assert(s.push(c)[i] == x);
        }
    }
}

/// Where the policy allows clones of one repository to share, a clone that
/// the graph does not know is offered the active credential of a known clone
/// of the same repository at another path, and the operator is not asked. If
/// that repository has one known clone, the two then share its credential.
pub proof fn lemma_duplicate_shares(
    s: StorageView,
    u: GitUrlView,
    first: Seq<char>,
    second: Seq<char>,
    is_ssh: bool,
)
    requires
        s.share.allows(Share::Duplicate),
        first != second,
        leaf_at(s.graph, u, first) is Some,
        leaf_at(s.graph, u, second) is None,
    ensures
        ({
            let (after, step) = negotiate(s, u, second, is_ssh);
            let repo = repo_at(s.graph, u)->0;
            &&& step matches StepView::Offer(c) && leaf_at(after.graph, u, second) == Some(
                RepoCredView { active: c, seen: Seq::empty() },
            ) && exists|i: int|
                0 <= i < repo.len() && (#[trigger] repo[i]).0 != second && repo[i].1.active == c
            &&& leaf_at(after.graph, u, first) == leaf_at(s.graph, u, first)
            &&& repo.len() == 1 ==> step == StepView::Offer(leaf_at(s.graph, u, first)->0.active)
        }),
{
    let none = Seq::<CredView>::empty();
    lemma_with_node_idempotent(s.graph, u);
    let repo = repo_at(s.graph, u)->0;
    lemma_key_index_bounds(repo, first);
    lemma_shared_in_repo(repo, second, none);
    assert(usable(repo[key_index(repo, first)], second, none));
    let leaf = RepoCredView { active: shared_in_repo(repo, second, none)->0, seen: none };
    lemma_with_leaf_at(s.graph, u, second, leaf, u, second);
    lemma_with_leaf_at(s.graph, u, second, leaf, u, first);
}

/// Under `Never` nothing that is stored is ever offered, on a first
/// challenge or on a retry: neither another clone's credential nor a
/// default. The operator is asked each time.
pub proof fn lemma_never_offers(s: StorageView, u: GitUrlView, path: Seq<char>, is_ssh: bool)
    requires
        s.share == Share::Never,
    ensures
        negotiate(s, u, path, is_ssh).1 is Prompt,
        forall|graph: GraphView, seen: Seq<CredView>|
            ready_cred(s, graph, u, path, is_ssh, seen) is None,
{
}

/// The graph after the repositories with a known password have been filed, in
/// their order: each under the identity of its URL, as a clone at the empty
/// path with that password and nothing rejected. A URL that names no
/// identity is passed over.
pub open spec fn seeded(graph: GraphView, plain: Seq<(Seq<char>, Seq<char>)>) -> GraphView
    decreases plain.len(),
{
    if plain.len() == 0 {
        graph
    } else {
        let before = seeded(graph, plain.drop_last());
        match remote_identity(plain.last().0) {
            Some(u) => with_leaf(
                before,
                u,
                Seq::empty(),
                RepoCredView { active: CredView::Plain(plain.last().1), seen: Seq::empty() },
            ),
            None => before,
        }
    }
}

/// The pre-verified keys of a configuration, in their order and without
/// repetition. An empty passphrase is no passphrase.
pub open spec fn key_set(ssh: Seq<(Seq<char>, Seq<char>)>) -> Seq<CredView>
    decreases ssh.len(),
{
    if ssh.len() == 0 {
        Seq::empty()
    } else {
        with_cred(key_set(ssh.drop_last()), CredView::Ssh(ssh.last().0, opt_seq(ssh.last().1)))
    }
}

/// The state that a configuration gives. An empty path means that there is
/// no default SSH key.
pub open spec fn storage_of(c: ConfigView) -> StorageView {
    StorageView {
        default_ssh: if c.default_ssh.0.len() == 0 {
            None
        } else {
            Some(CredView::Ssh(c.default_ssh.0, c.default_ssh.1))
        },
        default_plain: match c.default_plain {
            Some(pass) => Some(CredView::Plain(pass)),
            None => None,
        },
        graph: seeded(Seq::empty(), c.plain),
        keys: key_set(c.ssh),
        share: c.share,
    }
}

/// The pre-verified keys of a configuration are distinct SSH keys.
pub proof fn lemma_key_set_wf(ssh: Seq<(Seq<char>, Seq<char>)>)
    ensures
        distinct(key_set(ssh)),
        forall|i: int| 0 <= i < key_set(ssh).len() ==> #[trigger] key_set(ssh)[i] is Ssh,
    decreases ssh.len(),
{
    if ssh.len() != 0 {
        lemma_key_set_wf(ssh.drop_last());
    }
}

impl Storage {
    /// Whether the state is valid.
    pub open spec fn wf(&self) -> bool {
        storage_wf(self@)
    }

    /// The configured default for the kind of credential that is asked for,
    /// unless the policy ignores defaults or the clone has tried it.
    fn untried_default(&self, is_ssh: bool, seen: &CredSet) -> (r: Option<GitCred>)
        ensures
            r.deep_view() == match default_for(self@, is_ssh) {
                Some(d) => if seen@.contains(d) {
                    None
                } else {
                    Some(d)
                },
                None => None,
            },
    {
        if !self.share.at_least(Share::Defaults) {
            return None;
        }
        let default = if is_ssh {
            &self.default_ssh
        } else {
            &self.default_plain
        };
        match default {
            Some(d) => if seen.contains(d) {
                None
            } else {
                Some(d.clone())
            },
            None => None,
        }
    }

    /// The keys to choose from when the operator is asked.
    fn untried_keys(&self, is_ssh: bool, seen: &CredSet) -> (r: Vec<GitCred>)
        ensures
            r.deep_view() == choices(self@, is_ssh, seen@),
    {
        if is_ssh {
            self.keys.difference(seen)
        } else {
            Vec::new()
        }
    }

    /// The state at the start of a run.
    pub fn from_config(config: &Config) -> (r: Storage)
        ensures
            r@ == storage_of(config.deep_view()),
            r.wf(),
    {
        let default_ssh = if config.default_ssh.0.as_str().is_empty() {
            None
        } else {
            let pass = match &config.default_ssh.1 {
                Some(p) => Some(p.clone()),
                None => None,
            };
            Some(GitCred::Ssh(config.default_ssh.0.clone(), pass))
        };
        let default_plain = match &config.default_plain {
            Some(x) => Some(GitCred::Plain(x.clone())),
            None => None,
        };
        let mut repo_graph: RepoGraph = Table::new();
        let mut i: usize = 0;
        while i < config.plain.len()
            invariant
                i <= config.plain.len(),
                repo_graph.deep_view() == seeded(Seq::empty(), config.plain.deep_view().take(i as int)),
                graph_wf(repo_graph.deep_view()),
            decreases config.plain.len() - i,
        {
            proof {
                let now = config.plain.deep_view().take(i + 1);
                assert(now.drop_last() =~= config.plain.deep_view().take(i as int));
            }
            match parse_url(config.plain[i].0.clone()) {
                Ok(git_url) => {
                    let state = RepoCred {
                        active: GitCred::Plain(config.plain[i].1.clone()),
                        seen: CredSet::new(),
                    };
                    insert(&mut repo_graph, &git_url, &String::new(), state);
                },
                Err(_) => {},
            }
            i = i + 1;
        }
        let mut keys = CredSet::new();
        let mut j: usize = 0;
        while j < config.ssh.len()
            invariant
                j <= config.ssh.len(),
                keys@ == key_set(config.ssh.deep_view().take(j as int)),
                keys.wf(),
            decreases config.ssh.len() - j,
        {
            proof {
                let now = config.ssh.deep_view().take(j + 1);
                assert(now.drop_last() =~= config.ssh.deep_view().take(j as int));
            }
            keys.insert(GitCred::Ssh(config.ssh[j].0.clone(), str_to_opt(config.ssh[j].1.clone())));
            j = j + 1;
        }
        proof {
            assert(config.plain.deep_view().take(config.plain.len() as int) =~= config.plain.deep_view());
            assert(config.ssh.deep_view().take(config.ssh.len() as int) =~= config.ssh.deep_view());
            lemma_key_set_wf(config.ssh.deep_view());
        }
        Storage { default_ssh, default_plain, repo_graph, keys, share: config.share }
    }

    /// The sharing policy.
    pub fn share(&self) -> (r: Share)
        ensures
            r == self@.share,
    {
        self.share
    }

    /// What the broker knows of the clone of `git_url` at `repo_path`.
    pub fn lookup(&self, git_url: &GitUrl, repo_path: &String) -> (r: Option<&RepoCred>)
        ensures
            r.deep_view() == leaf_at(self@.graph, git_url@, repo_path@),
    {
        lookup(&self.repo_graph, git_url, repo_path)
    }

    /// Whether the graph has a node for the repository of `git_url`.
    pub fn has_repo_node(&self, git_url: &GitUrl) -> (r: bool)
        ensures
            r == (repo_at(self@.graph, git_url@) is Some),
    {
        let key = url_to_domain(git_url);
        match self.repo_graph.position(&key) {
            Some(d) => match self.repo_graph.entries[d].1.position(&git_url.org) {
                Some(o) => self.repo_graph.entries[d].1.entries[o].1.position(
                    &git_url.repo,
                ).is_some(),
                None => false,
            },
            None => false,
        }
    }

    /// Makes sure that the graph has nodes for the identity, the organization
    /// and the repository of `git_url`. Nodes that are there stay untouched.
    pub fn ensure_repo_node(&mut self, git_url: &GitUrl)
        requires
            old(self).wf(),
        ensures
            final(self)@ == with_graph(old(self)@, with_node(old(self)@.graph, git_url@)),
            final(self).wf(),
            repo_at(final(self)@.graph, git_url@) is Some,
            repo_at(old(self)@.graph, git_url@) is Some ==> final(self)@ == old(self)@,
    {
        let _ = ensure_node(&mut self.repo_graph, git_url);
        proof {
            lemma_with_node_idempotent(old(self)@.graph, git_url@);
        }
    }

    /// Answers one authentication challenge for the clone of `git_url` at
    /// `repo_path`. `is_ssh` says whether the remote asks for an SSH key
    /// rather than a password.
    pub fn get_cred(&mut self, git_url: &GitUrl, repo_path: &String, is_ssh: bool) -> (r:
        Negotiation)
        requires
            old(self).wf(),
        ensures
            final(self)@ == negotiate(old(self)@, git_url@, repo_path@, is_ssh).0,
            r@ == negotiate(old(self)@, git_url@, repo_path@, is_ssh).1,
            final(self).wf(),
    {
        let at = ensure_node(&mut self.repo_graph, git_url);
        let ghost graph = self.repo_graph.deep_view();
        let known = self.repo_graph.entries[at.0].1.entries[at.1].1.entries[at.2].1.position(
            repo_path,
        );
        match known {
            Some(p) => {
                let leaf = &self.repo_graph.entries[at.0].1.entries[at.1].1.entries[at.2].1.entries[p].1;
                let active = leaf.active.clone();
                let mut seen = leaf.seen.clone();
                assert(distinct(graph[at.0 as int].1[at.1 as int].1[at.2 as int].1[p as int].1.seen));
                seen.insert(leaf.active.clone());
                let ready = match get_shared_cred(
                    &self.repo_graph,
                    &self.share,
                    git_url,
                    repo_path,
                    &seen,
                ) {
                    Some(c) => Some(c),
                    None => self.untried_default(is_ssh, &seen),
                };
                match ready {
                    Some(c) => {
                        let state = RepoCred { active: c.clone(), seen };
                        set_leaf_at(&mut self.repo_graph, git_url, at, repo_path, state);
                        Negotiation::Offer(c)
                    },
                    None => {
                        let keys = self.untried_keys(is_ssh, &seen);
                        let state = RepoCred { active, seen };
                        set_leaf_at(&mut self.repo_graph, git_url, at, repo_path, state);
                        Negotiation::Prompt(keys)
                    },
                }
            },
            None => {
                let seen = CredSet::new();
                let ready = match get_shared_cred(
                    &self.repo_graph,
                    &self.share,
                    git_url,
                    repo_path,
                    &seen,
                ) {
                    Some(c) => Some(c),
                    None => self.untried_default(is_ssh, &seen),
                };
                match ready {
                    Some(c) => {
                        let state = RepoCred { active: c.clone(), seen };
                        set_leaf_at(&mut self.repo_graph, git_url, at, repo_path, state);
                        Negotiation::Offer(c)
                    },
                    None => Negotiation::Prompt(self.untried_keys(is_ssh, &seen)),
                }
            },
        }
    }

    /// Makes the operator's answer the active credential of the clone of
    /// `git_url` at `repo_path`, and says whether the clone has rejected that
    /// credential before.
    pub fn adopt(&mut self, git_url: &GitUrl, repo_path: &String, cred: GitCred) -> (tried: bool)
        requires
            old(self).wf(),
        ensures
            final(self)@ == adopted(old(self)@, git_url@, repo_path@, cred@),
            tried == tried_before(old(self)@, git_url@, repo_path@, cred@),
            final(self).wf(),
            leaf_at(final(self)@.graph, git_url@, repo_path@) matches Some(leaf) && leaf.active
                == cred@,
    {
        let at = ensure_node(&mut self.repo_graph, git_url);
        let ghost graph = self.repo_graph.deep_view();
        proof {
            lemma_with_node_keeps(old(self)@.graph, git_url@, git_url@, repo_path@);
            lemma_with_leaf_at(
                graph,
                git_url@,
                repo_path@,
                RepoCredView {
                    active: cred@,
                    seen: match leaf_at(graph, git_url@, repo_path@) {
                        Some(leaf) => leaf.seen,
                        None => Seq::empty(),
                    },
                },
                git_url@,
                repo_path@,
            );
        }
        let known = self.repo_graph.entries[at.0].1.entries[at.1].1.entries[at.2].1.position(
            repo_path,
        );
        match known {
            Some(p) => {
                let leaf = &self.repo_graph.entries[at.0].1.entries[at.1].1.entries[at.2].1.entries[p].1;
                let tried = leaf.seen.contains(&cred);
                let state = RepoCred { active: cred, seen: leaf.seen.clone() };
                set_leaf_at(&mut self.repo_graph, git_url, at, repo_path, state);
                tried
            },
            None => {
                let state = RepoCred { active: cred, seen: CredSet::new() };
                set_leaf_at(&mut self.repo_graph, git_url, at, repo_path, state);
                false
            },
        }
    }
}

/// The kind of credential that a remote asks for.
#[derive(Debug, Clone, Copy, PartialEq, Eq, Structural)]
pub enum Challenge {
    /// An SSH key.
    Ssh,
    /// A user name with a password.
    Plain,
    /// Something that the broker cannot give.
    Unsupported,
}

/// Reads the kind of a challenge from the kinds that the remote allows. An
/// SSH key is preferred to a password.
pub fn challenge(allows_ssh_key: bool, allows_user_pass: bool) -> (r: Challenge)
    ensures
        r == if allows_ssh_key {
            Challenge::Ssh
        } else if allows_user_pass {
            Challenge::Plain
        } else {
            Challenge::Unsupported
        },
{
    if allows_ssh_key {
        Challenge::Ssh
    } else if allows_user_pass {
        Challenge::Plain
    } else {
        Challenge::Unsupported
    }
}

/// The user to authenticate as: the one that the URL names. For an SSH key
/// the user is `git` where the URL names none; for a password there is no
/// user then.
pub fn callback_user(username_from_url: Option<&str>, is_ssh: bool) -> (r: Option<String>)
    ensures
        r.deep_view() == match username_from_url {
            Some(user) => Some(user@),
            None => if is_ssh {
                Some("git"@)
            } else {
                None
            },
        },
{
    match username_from_url {
        Some(user) => Some(String::from_str(user)),
        None => if is_ssh {
            Some(String::from_str("git"))
        } else {
            None
        },
    }
}

/// The git library's credential, `git2::Cred`. Values of it are only passed
/// on.
#[verifier::external_type_specification]
#[verifier::external_body]
pub struct ExCred(git2::Cred);

/// The git library's error, `git2::Error`. Values of it are only passed on.
#[verifier::external_type_specification]
#[verifier::external_body]
pub struct ExGitError(git2::Error);

/// Whether a text holds a NUL, which no text that is handed to the git
/// library may hold: the library takes its texts as C strings.
pub open spec fn has_nul(s: Seq<char>) -> bool {
    s.contains('\0')
}

/// Whether a text of a credential holds a NUL.
pub open spec fn cred_has_nul(c: CredView) -> bool {
    match c {
        CredView::Plain(pass) => has_nul(pass),
        CredView::Ssh(path, pass) => has_nul(path) || match pass {
            Some(p) => has_nul(p),
            None => false,
        },
    }
}

/// Makes an SSH key credential with `git2::Cred::ssh_key`, without a public
/// key. The call turns each text into a C string, which fails on a NUL, and
/// then has the git library copy the texts into a new object, which fails
/// only where memory cannot be had. So it fails exactly where a text holds a
/// NUL; running out of memory is left aside, as for every allocation. Nothing
/// is claimed of the credential itself.
#[verifier::external_body]
fn ssh_key_cred(username: &str, private_key: &str, passphrase: Option<&str>) -> (r: Result<
    git2::Cred,
    git2::Error,
>)
    ensures
        r is Err <==> has_nul(username@) || has_nul(private_key@) || (passphrase matches Some(p)
            && has_nul(p@)),
{
    git2::Cred::ssh_key(username, None, std::path::Path::new(private_key), passphrase)
}

/// Makes a user and password credential with
/// `git2::Cred::userpass_plaintext`. The call turns each text into a C
/// string, which fails on a NUL, and then has the git library copy the texts
/// into a new object, which fails only where memory cannot be had. So it
/// fails exactly where a text holds a NUL; running out of memory is left
/// aside, as for every allocation. Nothing is claimed of the credential
/// itself.
#[verifier::external_body]
fn userpass_cred(username: &str, password: &str) -> (r: Result<git2::Cred, git2::Error>)
    ensures
        r is Err <==> has_nul(username@) || has_nul(password@),
{
    git2::Cred::userpass_plaintext(username, password)
}

/// The error of the git library that carries `message`: the one with the
/// library's general error code, no error class, and that message.
pub uninterp spec fn git_error_from(message: Seq<char>) -> git2::Error;

/// Makes an error of the git library with `git2::Error::from_str`, which
/// builds it from the message alone: the general error code, no class, and a
/// copy of the message. `git_error_from` names that error.
#[verifier::external_body]
fn git_error(message: &str) -> (r: git2::Error)
    ensures
        r == git_error_from(message@),
{
    git2::Error::from_str(message)
}

/// Turns a credential into the git library's own: an SSH key into a key
/// credential for `username`, a password into a user and password credential
/// for `username`. That succeeds unless the user name or a text of the
/// credential holds a NUL.
pub fn git_cred_to_cred(username: String, cred: GitCred) -> (r: Result<git2::Cred, git2::Error>)
    ensures
        r is Err <==> has_nul(username@) || cred_has_nul(cred@),
{
    match cred {
        GitCred::Ssh(path, key_pass) => {
            let pass = match &key_pass {
                Some(p) => Some(p.as_str()),
                None => None,
            };
            ssh_key_cred(username.as_str(), path.as_str(), pass)
        },
        GitCred::Plain(pass) => userpass_cred(username.as_str(), pass.as_str()),
    }
}

/// What the error for an unsupported challenge says.
pub open spec fn unsupported_message() -> Seq<char> {
    "Unable to select a credential type, only plaintext or ssh key are supported at this time."@
}

/// The error for a challenge that is neither for an SSH key nor for a
/// password: the git library's error that carries `unsupported_message`.
pub fn unsupported_challenge() -> (r: git2::Error)
    ensures
        r == git_error_from(unsupported_message()),
{
    git_error(
        "Unable to select a credential type, only plaintext or ssh key are supported at this time.",
    )
}

/// What an authentication challenge asks of the broker, once it is
/// understood: for which user, of which kind, and for which repository.
#[derive(Debug)]
pub struct Request {
    pub user: String,
    pub is_ssh: bool,
    pub git_url: GitUrl,
}

/// The mathematical content of a `Request`.
pub struct RequestView {
    pub user: Seq<char>,
    pub is_ssh: bool,
    pub git_url: GitUrlView,
}

impl View for Request {
    type V = RequestView;

    open spec fn view(&self) -> RequestView {
        RequestView { user: self.user@, is_ssh: self.is_ssh, git_url: self.git_url@ }
    }
}

/// What the error for a password challenge without a user name says.
pub open spec fn no_user_message() -> Seq<char> {
    "no username available in git url"@
}

/// What the error for a remote that names no identity says.
pub open spec fn unparsable_message(url: Seq<char>, is_ssh: bool) -> Seq<char> {
    if is_ssh {
        "Expected url \""@ + url + "\" to parse :("@
    } else {
        "Expected url to parse :("@
    }
}

/// The request that a challenge makes, or what is wrong with the challenge.
/// The kind is settled first, then the user, then the repository.
pub open spec fn request_of(
    url: Seq<char>,
    username_from_url: Option<Seq<char>>,
    allows_ssh_key: bool,
    allows_user_pass: bool,
) -> Result<RequestView, Seq<char>> {
    if !allows_ssh_key && !allows_user_pass {
        Err(unsupported_message())
    } else {
        let is_ssh = allows_ssh_key;
        let user = match username_from_url {
            Some(user) => Some(user),
            None => if is_ssh {
                Some("git"@)
            } else {
                None
            },
        };
        match user {
            None => Err(no_user_message()),
            Some(user) => match remote_identity(url) {
                Some(git_url) => Ok(RequestView { user, is_ssh, git_url }),
                None => Err(unparsable_message(url, is_ssh)),
            },
        }
    }
}

/// Reads an authentication challenge for the remote `url`. Gives the request
/// to negotiate, or the git library's error that says what is wrong: the
/// remote allows neither an SSH key nor a password, it wants a password but
/// the URL names no user, or the URL names no identity.
pub fn callback_request(
    url: &str,
    username_from_url: Option<&str>,
    allows_ssh_key: bool,
    allows_user_pass: bool,
) -> (r: Result<Request, git2::Error>)
    ensures
        match r {
            Ok(request) => request_of(
                url@,
                match username_from_url {
                    Some(user) => Some(user@),
                    None => None,
                },
                allows_ssh_key,
                allows_user_pass,
            ) == Ok::<RequestView, Seq<char>>(request@),
            Err(e) => request_of(
                url@,
                match username_from_url {
                    Some(user) => Some(user@),
                    None => None,
                },
                allows_ssh_key,
                allows_user_pass,
            ) matches Err(message) && e == git_error_from(message),
        },
{
    let is_ssh = match challenge(allows_ssh_key, allows_user_pass) {
        Challenge::Ssh => true,
        Challenge::Plain => false,
        Challenge::Unsupported => {
            return Err(unsupported_challenge());
        },
    };
    let user = match callback_user(username_from_url, is_ssh) {
        Some(user) => user,
        None => {
            return Err(git_error("no username available in git url"));
        },
    };
    match parse_url(String::from_str(url)) {
        Ok(git_url) => Ok(Request { user, is_ssh, git_url }),
        Err(_) => {
            let message = if is_ssh {
                String::from_str("Expected url \"").concat(url).concat("\" to parse :(")
            } else {
                String::from_str("Expected url to parse :(")
            };
            Err(git_error(message.as_str()))
        },
    }
}

} // verus!
