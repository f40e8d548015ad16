//! The credential graph: identity, organization, repository and clone path,
//! in four nested tables, and the search in it for a credential to reuse.
//!
//! Every table keeps insertion order, and every search takes the first match
//! in that order.

use vstd::prelude::*;
use vstd::string::*;
use crate::config::Share;
use crate::git_cred::{distinct, CredSet, CredView, GitCred, RepoCred, RepoCredView};
use crate::git_url::{GitUrl, GitUrlView};
use crate::table::{
    distinct_keys, entry, has_key, inner, key_index, lemma_key_index_bounds, lemma_put_distinct,
    lemma_put_entry, lemma_put_index, lemma_put_same, lemma_put_twice, put, Table,
};

verus! {

/// The clones of one repository, by clone path.
pub type Repo = Table<RepoCred>;

/// The repositories of one organization, by repository name.
pub type Org = Table<Repo>;

/// The organizations of one identity, by organization path.
pub type Domain = Table<Org>;

/// The identities, by identity key.
pub type RepoGraph = Table<Domain>;

/// The mathematical content of a `Repo`: clone paths with what is known of
/// each clone, in insertion order.
pub type RepoView = Seq<(Seq<char>, RepoCredView)>;

/// The mathematical content of an `Org`: repository names with their clones.
pub type OrgView = Seq<(Seq<char>, RepoView)>;

/// The mathematical content of a `Domain`: organization paths with their
/// repositories.
pub type DomainView = Seq<(Seq<char>, OrgView)>;

/// The mathematical content of a `RepoGraph`: identity keys with their
/// organizations.
pub type GraphView = Seq<(Seq<char>, DomainView)>;

/// A clone of a repository's table has the same content.
pub proof fn lemma_repo_clone(a: Repo, b: Repo)
    requires
        cloned::<Repo>(a, b),
    ensures
        a.deep_view() == b.deep_view(),
{
    assert(a.deep_view() =~= b.deep_view());
}

/// A clone of an organization's table has the same content.
pub proof fn lemma_org_clone(a: Org, b: Org)
    requires
        cloned::<Org>(a, b),
    ensures
        a.deep_view() == b.deep_view(),
{
    assert forall|i: int| 0 <= i < a.entries.len() implies #[trigger] a.deep_view()[i]
        == b.deep_view()[i] by {
        lemma_repo_clone(a.entries[i].1, b.entries[i].1);
    }
    assert(a.deep_view() =~= b.deep_view());
}

/// A clone of an identity's table has the same content.
pub proof fn lemma_domain_clone(a: Domain, b: Domain)
    requires
        cloned::<Domain>(a, b),
    ensures
        a.deep_view() == b.deep_view(),
{
    assert forall|i: int| 0 <= i < a.entries.len() implies #[trigger] a.deep_view()[i]
        == b.deep_view()[i] by {
        lemma_org_clone(a.entries[i].1, b.entries[i].1);
    }
    assert(a.deep_view() =~= b.deep_view());
}

/// A clone of the graph has the same content.
pub proof fn lemma_graph_clone(a: RepoGraph, b: RepoGraph)
    requires
        cloned::<RepoGraph>(a, b),
    ensures
        a.deep_view() == b.deep_view(),
{
    assert forall|i: int| 0 <= i < a.entries.len() implies #[trigger] a.deep_view()[i]
        == b.deep_view()[i] by {
        lemma_domain_clone(a.entries[i].1, b.entries[i].1);
    }
    assert(a.deep_view() =~= b.deep_view());
}

/// The key of an identity: `scheme://username@domain`.
pub open spec fn domain_key(u: GitUrlView) -> Seq<char> {
    u.scheme + "://"@ + u.username + "@"@ + u.domain
}

/// The key under which the graph files a repository's identity.
pub fn url_to_domain(git_url: &GitUrl) -> (r: String)
    ensures
        r@ == domain_key(git_url@),
{
    let mut r = git_url.scheme.clone();
    r.append("://");
    r.append(git_url.username.as_str());
    r.append("@");
    r.append(git_url.domain.as_str());
    r
}

/// Whether two identities name the same node of the graph.
pub open spec fn same_node(u: GitUrlView, v: GitUrlView) -> bool {
    domain_key(u) == domain_key(v) && u.org == v.org && u.repo == v.repo
}

/// Whether a repository's clones have distinct paths and each clone's
/// rejected credentials are distinct.
pub open spec fn repo_wf(repo: RepoView) -> bool {
    &&& distinct_keys(repo)
    &&& forall|i: int| 0 <= i < repo.len() ==> distinct(#[trigger] repo[i].1.seen)
}

/// Whether an organization's repositories have distinct names and each is
/// well formed.
pub open spec fn org_wf(org: OrgView) -> bool {
    &&& distinct_keys(org)
    &&& forall|i: int| 0 <= i < org.len() ==> repo_wf(#[trigger] org[i].1)
}

/// Whether an identity's organizations have distinct paths and each is well
/// formed.
pub open spec fn domain_wf(domain: DomainView) -> bool {
    &&& distinct_keys(domain)
    &&& forall|i: int| 0 <= i < domain.len() ==> org_wf(#[trigger] domain[i].1)
}

/// Whether no key occurs twice in any table of the graph.
pub open spec fn graph_wf(graph: GraphView) -> bool {
    &&& distinct_keys(graph)
    &&& forall|i: int| 0 <= i < graph.len() ==> domain_wf(#[trigger] graph[i].1)
}

/// The clones of the repository that `u` names; none where the graph has no
/// node for it.
pub open spec fn repo_at(graph: GraphView, u: GitUrlView) -> Option<RepoView> {
    match entry(graph, domain_key(u)) {
        Some(domain) => match entry(domain, u.org) {
            Some(org) => entry(org, u.repo),
            None => None,
        },
        None => None,
    }
}

/// What the graph knows of the clone of `u` at `path`.
pub open spec fn leaf_at(graph: GraphView, u: GitUrlView, path: Seq<char>) -> Option<RepoCredView> {
    match repo_at(graph, u) {
        Some(repo) => entry(repo, path),
        None => None,
    }
}

/// The graph with `repo` as the clones of the repository that `u` names.
/// Tables on the way that are missing are added at the end of the table
/// above them.
pub open spec fn with_repo(graph: GraphView, u: GitUrlView, repo: RepoView) -> GraphView {
    let domain = inner(graph, domain_key(u));
    let org = inner(domain, u.org);
    put(graph, domain_key(u), put(domain, u.org, put(org, u.repo, repo)))
}

/// The graph with nodes for the identity, the organization and the repository
/// of `u`. Nodes that are there stay as they are; missing ones are added,
/// empty, at the end of their table.
pub open spec fn with_node(graph: GraphView, u: GitUrlView) -> GraphView {
    with_repo(graph, u, inner(inner(inner(graph, domain_key(u)), u.org), u.repo))
}

/// The graph with `leaf` for the clone of `u` at `path`: in place of what the
/// graph knew of that clone, or as a new clone at the end of the repository's
/// table. Nodes that are missing are made.
pub open spec fn with_leaf(
    graph: GraphView,
    u: GitUrlView,
    path: Seq<char>,
    leaf: RepoCredView,
) -> GraphView {
    with_repo(graph, u, put(inner(inner(inner(graph, domain_key(u)), u.org), u.repo), path, leaf))
}

/// Whether the credential of `clone` may be offered to the clone at `path`
/// that has tried `seen`: it belongs to another path and has not been tried.
pub open spec fn usable(clone: (Seq<char>, RepoCredView), path: Seq<char>, seen: Seq<CredView>) -> bool {
    clone.0 != path && !seen.contains(clone.1.active)
}

/// The first usable credential among the clones of one repository.
pub open spec fn shared_in_repo(repo: RepoView, path: Seq<char>, seen: Seq<CredView>) -> Option<
    CredView,
>
    decreases repo.len(),
{
    if repo.len() == 0 {
        None
    } else if usable(repo[0], path, seen) {
        Some(repo[0].1.active)
    } else {
        shared_in_repo(repo.drop_first(), path, seen)
    }
}

/// The first usable credential among the repositories of one organization.
pub open spec fn shared_in_org(org: OrgView, path: Seq<char>, seen: Seq<CredView>) -> Option<
    CredView,
>
    decreases org.len(),
{
    if org.len() == 0 {
        None
    } else {
        match shared_in_repo(org[0].1, path, seen) {
            Some(c) => Some(c),
            None => shared_in_org(org.drop_first(), path, seen),
        }
    }
}

/// The first usable credential among the organizations of one identity.
pub open spec fn shared_in_domain(domain: DomainView, path: Seq<char>, seen: Seq<CredView>) -> Option<
    CredView,
>
    decreases domain.len(),
{
    if domain.len() == 0 {
        None
    } else {
        match shared_in_org(domain[0].1, path, seen) {
            Some(c) => Some(c),
            None => shared_in_domain(domain.drop_first(), path, seen),
        }
    }
}

/// The credential that the clone of `u` at `path` may reuse under `share`,
/// having tried `seen`. Below `Duplicate` there is none. From `Duplicate` on
/// the other clones of the same repository are searched; from `Org` on, where
/// that finds nothing, the repositories of the same organization; at
/// `Domain`, where that finds nothing either, every organization of the same
/// identity.
pub open spec fn shared_cred(
    graph: GraphView,
    share: Share,
    u: GitUrlView,
    path: Seq<char>,
    seen: Seq<CredView>,
) -> Option<CredView> {
    if !share.allows(Share::Duplicate) {
        None
    } else {
        match entry(graph, domain_key(u)) {
            None => None,
            Some(domain) => {
                let in_org = match entry(domain, u.org) {
                    None => None,
                    Some(org) => {
                        let in_repo = match entry(org, u.repo) {
                            None => None,
                            Some(repo) => shared_in_repo(repo, path, seen),
                        };
                        if in_repo is Some {
                            in_repo
                        } else if share.allows(Share::Org) {
                            shared_in_org(org, path, seen)
                        } else {
                            None
                        }
                    },
                };
                if in_org is Some {
                    in_org
                } else if share.allows(Share::Domain) {
                    shared_in_domain(domain, path, seen)
                } else {
                    None
                }
            },
        }
    }
}

/// Searches the clones of one repository, in insertion order, for a
/// credential that another path uses and that has not been tried.
pub fn get_shared_pwd_repo(repo: &Repo, repo_path: &String, seen: &CredSet) -> (r: Option<GitCred>)
    ensures
        r.deep_view() == shared_in_repo(repo.deep_view(), repo_path@, seen@),
{
    let mut i: usize = 0;
    proof {
        assert(repo.deep_view().skip(0) =~= repo.deep_view());
    }
    while i < repo.entries.len()
        invariant
            i <= repo.entries.len(),
            shared_in_repo(repo.deep_view(), repo_path@, seen@) == shared_in_repo(
                repo.deep_view().skip(i as int),
                repo_path@,
                seen@,
            ),
        decreases repo.entries.len() - i,
    {
        proof {
            let rest = repo.deep_view().skip(i as int);
            assert(rest.drop_first() =~= repo.deep_view().skip(i + 1));
        }
        if !(repo.entries[i].0 == *repo_path) && !seen.contains(&repo.entries[i].1.active) {
            return Some(repo.entries[i].1.active.clone());
        }
        i = i + 1;
    }
    None
}

/// Searches the repositories of one organization, in insertion order.
pub fn get_shared_pwd_org(org: &Org, repo_path: &String, seen: &CredSet) -> (r: Option<GitCred>)
    ensures
        r.deep_view() == shared_in_org(org.deep_view(), repo_path@, seen@),
{
    let mut i: usize = 0;
    proof {
        assert(org.deep_view().skip(0) =~= org.deep_view());
    }
    while i < org.entries.len()
        invariant
            i <= org.entries.len(),
            shared_in_org(org.deep_view(), repo_path@, seen@) == shared_in_org(
                org.deep_view().skip(i as int),
                repo_path@,
                seen@,
            ),
        decreases org.entries.len() - i,
    {
        proof {
            let rest = org.deep_view().skip(i as int);
            assert(rest.drop_first() =~= org.deep_view().skip(i + 1));
        }
        match get_shared_pwd_repo(&org.entries[i].1, repo_path, seen) {
            Some(c) => {
                return Some(c);
            },
            None => {},
        }
        i = i + 1;
    }
    None
}

/// Searches the organizations of one identity, in insertion order.
pub fn get_shared_pwd_domain(domain: &Domain, repo_path: &String, seen: &CredSet) -> (r: Option<
    GitCred,
>)
    ensures
        r.deep_view() == shared_in_domain(domain.deep_view(), repo_path@, seen@),
{
    let mut i: usize = 0;
    proof {
        assert(domain.deep_view().skip(0) =~= domain.deep_view());
    }
    while i < domain.entries.len()
        invariant
            i <= domain.entries.len(),
            shared_in_domain(domain.deep_view(), repo_path@, seen@) == shared_in_domain(
                domain.deep_view().skip(i as int),
                repo_path@,
                seen@,
            ),
        decreases domain.entries.len() - i,
    {
        proof {
            let rest = domain.deep_view().skip(i as int);
            assert(rest.drop_first() =~= domain.deep_view().skip(i + 1));
        }
        match get_shared_pwd_org(&domain.entries[i].1, repo_path, seen) {
            Some(c) => {
                return Some(c);
            },
            None => {},
        }
        i = i + 1;
    }
    None
}

/// Looks in the graph for a credential that the clone of `git_url` at
/// `repo_path` may reuse: one that another clone uses and that is not in
/// `seen`, at the narrowest scope that `share` allows and that has one.
pub fn get_shared_cred(
    rg: &RepoGraph,
    share: &Share,
    git_url: &GitUrl,
    repo_path: &String,
    seen: &CredSet,
) -> (r: Option<GitCred>)
    ensures
        r.deep_view() == shared_cred(rg.deep_view(), *share, git_url@, repo_path@, seen@),
        !share.allows(Share::Duplicate) ==> r is None,
{
    if !share.at_least(Share::Duplicate) {
        return None;
    }
    let key = url_to_domain(git_url);
    if let Some(d) = rg.position(&key) {
        let domain = &rg.entries[d].1;
        if let Some(o) = domain.position(&git_url.org) {
            let org = &domain.entries[o].1;
            if let Some(r) = org.position(&git_url.repo) {
                if let Some(cred) = get_shared_pwd_repo(&org.entries[r].1, repo_path, seen) {
                    return Some(cred);
                }
            }
            if share.at_least(Share::Org) {
                if let Some(cred) = get_shared_pwd_org(org, repo_path, seen) {
                    return Some(cred);
                }
            }
        }
        if share.at_least(Share::Domain) {
            if let Some(cred) = get_shared_pwd_domain(domain, repo_path, seen) {
                return Some(cred);
            }
        }
    }
    None
}

/// What the search in one repository finds is the active credential of a
/// clone at another path, and has not been tried. It finds nothing only where
/// no clone is usable.
pub proof fn lemma_shared_in_repo(repo: RepoView, path: Seq<char>, seen: Seq<CredView>)
    ensures
        match shared_in_repo(repo, path, seen) {
            Some(c) => !seen.contains(c) && exists|i: int|
                0 <= i < repo.len() && (#[trigger] repo[i]).0 != path && repo[i].1.active == c,
            None => forall|i: int| 0 <= i < repo.len() ==> !usable(#[trigger] repo[i], path, seen),
        },
    decreases repo.len(),
{
    if repo.len() != 0 && !usable(repo[0], path, seen) {
        let rest = repo.drop_first();
        lemma_shared_in_repo(rest, path, seen);
        match shared_in_repo(rest, path, seen) {
            Some(c) => {
                let i = choose|i: int|
                    0 <= i < rest.len() && (#[trigger] rest[i]).0 != path && rest[i].1.active == c;
                assert(repo[i + 1] == rest[i]);
            },
            None => {
                assert forall|i: int| 0 <= i < repo.len() implies !usable(
                    #[trigger] repo[i],
                    path,
                    seen,
                ) by {
                    if i > 0 {
                        assert(repo[i] == rest[i - 1]);
                    }
                }
            },
        }
    }
}

/// What the search in one organization finds has not been tried.
pub proof fn lemma_shared_in_org(org: OrgView, path: Seq<char>, seen: Seq<CredView>)
    ensures
        shared_in_org(org, path, seen) matches Some(c) ==> !seen.contains(c),
    decreases org.len(),
{
    if org.len() != 0 {
        lemma_shared_in_repo(org[0].1, path, seen);
        lemma_shared_in_org(org.drop_first(), path, seen);
    }
}

/// What the search in one identity finds has not been tried.
pub proof fn lemma_shared_in_domain(domain: DomainView, path: Seq<char>, seen: Seq<CredView>)
    ensures
        shared_in_domain(domain, path, seen) matches Some(c) ==> !seen.contains(c),
    decreases domain.len(),
{
    if domain.len() != 0 {
        lemma_shared_in_org(domain[0].1, path, seen);
        lemma_shared_in_domain(domain.drop_first(), path, seen);
    }
}

/// A credential that the graph gives for reuse is never one that the clone
/// has tried, and below `Duplicate` the graph gives none.
pub proof fn lemma_shared_cred_untried(
    graph: GraphView,
    share: Share,
    u: GitUrlView,
    path: Seq<char>,
    seen: Seq<CredView>,
)
    ensures
        shared_cred(graph, share, u, path, seen) matches Some(c) ==> !seen.contains(c),
        !share.allows(Share::Duplicate) ==> shared_cred(graph, share, u, path, seen) is None,
{
    if let Some(domain) = entry(graph, domain_key(u)) {
        lemma_shared_in_domain(domain, path, seen);
        if let Some(org) = entry(domain, u.org) {
            lemma_shared_in_org(org, path, seen);
            if let Some(repo) = entry(org, u.repo) {
                lemma_shared_in_repo(repo, path, seen);
            }
        }
    }
}

/// A repository without clones at the end of an organization adds nothing to
/// what a search of the organization finds.
pub proof fn lemma_search_org_push(
    org: OrgView,
    key: Seq<char>,
    path: Seq<char>,
    seen: Seq<CredView>,
)
    ensures
        shared_in_org(org.push((key, Seq::empty())), path, seen) == shared_in_org(org, path, seen),
    decreases org.len(),
{
    let longer = org.push((key, Seq::empty()));
    if org.len() == 0 {
        assert(longer.drop_first() =~= Seq::<(Seq<char>, RepoView)>::empty());
    } else {
        assert(longer.drop_first() =~= org.drop_first().push((key, Seq::empty())));
        lemma_search_org_push(org.drop_first(), key, path, seen);
    }
}

/// An organization in which nothing is found, at the end of an identity,
/// adds nothing to what a search of the identity finds.
pub proof fn lemma_search_domain_push(
    domain: DomainView,
    key: Seq<char>,
    org: OrgView,
    path: Seq<char>,
    seen: Seq<CredView>,
)
    requires
        shared_in_org(org, path, seen) is None,
    ensures
        shared_in_domain(domain.push((key, org)), path, seen) == shared_in_domain(
            domain,
            path,
            seen,
        ),
    decreases domain.len(),
{
    let longer = domain.push((key, org));
    if domain.len() == 0 {
        assert(longer.drop_first() =~= Seq::<(Seq<char>, OrgView)>::empty());
    } else {
        assert(longer.drop_first() =~= domain.drop_first().push((key, org)));
        lemma_search_domain_push(domain.drop_first(), key, org, path, seen);
    }
}

/// An organization put in place of one in which the same is found changes
/// nothing of what a search of the identity finds.
pub proof fn lemma_search_domain_update(
    domain: DomainView,
    i: int,
    org: OrgView,
    path: Seq<char>,
    seen: Seq<CredView>,
)
    requires
        0 <= i < domain.len(),
        shared_in_org(org, path, seen) == shared_in_org(domain[i].1, path, seen),
    ensures
        shared_in_domain(domain.update(i, (domain[i].0, org)), path, seen) == shared_in_domain(
            domain,
            path,
            seen,
        ),
    decreases domain.len(),
{
    let changed = domain.update(i, (domain[i].0, org));
    if i == 0 {
        assert(changed.drop_first() =~= domain.drop_first());
    } else {
        let rest = domain.drop_first();
        assert(changed.drop_first() =~= rest.update(i - 1, (rest[i - 1].0, org)));
        lemma_search_domain_update(rest, i - 1, org, path, seen);
    }
}

/// Nodes hold no credentials: making the nodes of one identity changes
/// nothing of what the search for any clone finds.
pub proof fn lemma_nodes_change_no_search(
    graph: GraphView,
    u: GitUrlView,
    share: Share,
    v: GitUrlView,
    path: Seq<char>,
    seen: Seq<CredView>,
)
    ensures
        shared_cred(with_node(graph, u), share, v, path, seen) == shared_cred(
            graph,
            share,
            v,
            path,
            seen,
        ),
{
    let domain = inner(graph, domain_key(u));
    let org = inner(domain, u.org);
    let repo = inner(org, u.repo);
    let new_org = put(org, u.repo, repo);
    let new_domain = put(domain, u.org, new_org);
    lemma_put_entry(graph, domain_key(u), new_domain, domain_key(v));
    lemma_put_entry(domain, u.org, new_org, v.org);
    lemma_put_entry(org, u.repo, repo, v.repo);
    lemma_key_index_bounds(domain, u.org);
    lemma_key_index_bounds(org, u.repo);
    // What is found in the organization of `u` stays.
    if has_key(org, u.repo) {
        lemma_put_same(org, u.repo, repo);
    } else {
        lemma_search_org_push(org, u.repo, path, seen);
    }
    assert(shared_in_org(new_org, path, seen) == shared_in_org(org, path, seen));
    // What is found in the identity of `u` stays.
    if has_key(domain, u.org) {
        lemma_search_domain_update(domain, key_index(domain, u.org), new_org, path, seen);
    } else {
        lemma_search_domain_push(domain, u.org, new_org, path, seen);
    }
    assert(shared_in_domain(new_domain, path, seen) == shared_in_domain(domain, path, seen));
}

/// What `with_repo` leaves at every node: `repo` at the node of `u`, and at
/// every other node what was there.
pub proof fn lemma_with_repo_at(graph: GraphView, u: GitUrlView, repo: RepoView, v: GitUrlView)
    ensures
        repo_at(with_repo(graph, u, repo), v) == if same_node(u, v) {
            Some(repo)
        } else {
            repo_at(graph, v)
        },
{
    let domain = inner(graph, domain_key(u));
    let org = inner(domain, u.org);
    lemma_put_entry(graph, domain_key(u), put(domain, u.org, put(org, u.repo, repo)), domain_key(v));
    lemma_put_entry(domain, u.org, put(org, u.repo, repo), v.org);
    lemma_put_entry(org, u.repo, repo, v.repo);
}

/// `with_repo` keeps a graph well formed.
pub proof fn lemma_with_repo_wf(graph: GraphView, u: GitUrlView, repo: RepoView)
    requires
        graph_wf(graph),
        repo_wf(repo),
    ensures
        graph_wf(with_repo(graph, u, repo)),
{
    let domain = inner(graph, domain_key(u));
    let org = inner(domain, u.org);
    let new_org = put(org, u.repo, repo);
    let new_domain = put(domain, u.org, new_org);
    let after = put(graph, domain_key(u), new_domain);
    lemma_key_index_bounds(graph, domain_key(u));
    lemma_key_index_bounds(domain, u.org);
    lemma_key_index_bounds(org, u.repo);
    if has_key(graph, domain_key(u)) {
        assert(domain_wf(graph[key_index(graph, domain_key(u))].1));
    }
    assert(domain_wf(domain));
    if has_key(domain, u.org) {
        assert(org_wf(domain[key_index(domain, u.org)].1));
    }
    assert(org_wf(org));
    lemma_put_distinct(org, u.repo, repo);
    assert forall|i: int| 0 <= i < new_org.len() implies repo_wf(#[trigger] new_org[i].1) by {
        if i != key_index(org, u.repo) {
            assert(new_org[i] == org[i]);
        }
    }
    lemma_put_distinct(domain, u.org, new_org);
    assert forall|i: int| 0 <= i < new_domain.len() implies org_wf(#[trigger] new_domain[i].1) by {
        if i != key_index(domain, u.org) {
            assert(new_domain[i] == domain[i]);
        }
    }
    lemma_put_distinct(graph, domain_key(u), new_domain);
    assert forall|i: int| 0 <= i < after.len() implies domain_wf(#[trigger] after[i].1) by {
        if i != key_index(graph, domain_key(u)) {
            assert(after[i] == graph[i]);
        }
    }
}

/// The clones that a well-formed graph has of a repository are well formed.
pub proof fn lemma_repo_at_wf(graph: GraphView, u: GitUrlView)
    requires
        graph_wf(graph),
    ensures
        repo_wf(inner(inner(inner(graph, domain_key(u)), u.org), u.repo)),
{
    let domain = inner(graph, domain_key(u));
    let org = inner(domain, u.org);
    lemma_key_index_bounds(graph, domain_key(u));
    lemma_key_index_bounds(domain, u.org);
    lemma_key_index_bounds(org, u.repo);
    if has_key(graph, domain_key(u)) {
        assert(domain_wf(graph[key_index(graph, domain_key(u))].1));
        if has_key(domain, u.org) {
            assert(org_wf(domain[key_index(domain, u.org)].1));
            if has_key(org, u.repo) {
                assert(repo_wf(org[key_index(org, u.repo)].1));
            }
        }
    }
}

/// Making nodes keeps a graph well formed.
pub proof fn lemma_with_node_wf(graph: GraphView, u: GitUrlView)
    requires
        graph_wf(graph),
    ensures
        graph_wf(with_node(graph, u)),
{
    lemma_repo_at_wf(graph, u);
    lemma_with_repo_wf(graph, u, inner(inner(inner(graph, domain_key(u)), u.org), u.repo));
}

/// Filing a leaf keeps a graph well formed, if what the leaf has rejected is
/// distinct.
pub proof fn lemma_with_leaf_wf(graph: GraphView, u: GitUrlView, path: Seq<char>, leaf: RepoCredView)
    requires
        graph_wf(graph),
        distinct(leaf.seen),
    ensures
        graph_wf(with_leaf(graph, u, path, leaf)),
{
    let repo = inner(inner(inner(graph, domain_key(u)), u.org), u.repo);
    let filed = put(repo, path, leaf);
    lemma_repo_at_wf(graph, u);
    lemma_key_index_bounds(repo, path);
    lemma_put_distinct(repo, path, leaf);
    assert forall|i: int| 0 <= i < filed.len() implies distinct(#[trigger] filed[i].1.seen) by {
        if i != key_index(repo, path) {
            assert(filed[i] == repo[i]);
        }
    }
    lemma_with_repo_wf(graph, u, filed);
}

/// Filing at a node what is there changes nothing.
pub proof fn lemma_with_repo_same(graph: GraphView, u: GitUrlView, repo: RepoView)
    requires
        repo_at(graph, u) == Some(repo),
    ensures
        with_repo(graph, u, repo) == graph,
{
    let domain = inner(graph, domain_key(u));
    let org = inner(domain, u.org);
    lemma_put_same(org, u.repo, repo);
    lemma_put_same(domain, u.org, org);
    lemma_put_same(graph, domain_key(u), domain);
}

/// Making the nodes of an identity twice is making them once, and a graph
/// that has them is left as it is.
pub proof fn lemma_with_node_idempotent(graph: GraphView, u: GitUrlView)
    ensures
        with_node(with_node(graph, u), u) == with_node(graph, u),
        repo_at(with_node(graph, u), u) is Some,
        repo_at(graph, u) is Some ==> with_node(graph, u) == graph,
{
    let repo = inner(inner(inner(graph, domain_key(u)), u.org), u.repo);
    let once = with_node(graph, u);
    lemma_with_repo_at(graph, u, repo, u);
    lemma_with_repo_same(once, u, repo);
    if repo_at(graph, u) is Some {
        lemma_with_repo_same(graph, u, repo);
    }
}

/// Making the nodes of `u` changes nothing that the graph knows of any clone,
/// and takes no node away.
pub proof fn lemma_with_node_keeps(graph: GraphView, u: GitUrlView, v: GitUrlView, path: Seq<char>)
    ensures
        leaf_at(with_node(graph, u), v, path) == leaf_at(graph, v, path),
        repo_at(graph, v) is Some ==> repo_at(with_node(graph, u), v) == repo_at(graph, v),
{
    let repo = inner(inner(inner(graph, domain_key(u)), u.org), u.repo);
    lemma_with_repo_at(graph, u, repo, v);
}

/// What the graph knows of every clone after `with_leaf`: the new leaf for
/// the clone that was filed, and for every other clone what it knew before.
pub proof fn lemma_with_leaf_at(
    graph: GraphView,
    u: GitUrlView,
    path: Seq<char>,
    leaf: RepoCredView,
    v: GitUrlView,
    other: Seq<char>,
)
    ensures
        leaf_at(with_leaf(graph, u, path, leaf), v, other) == if same_node(u, v) && other == path {
            Some(leaf)
        } else {
            leaf_at(graph, v, other)
        },
{
    let repo = inner(inner(inner(graph, domain_key(u)), u.org), u.repo);
    lemma_with_repo_at(graph, u, put(repo, path, leaf), v);
    lemma_put_entry(repo, path, leaf, other);
}

/// Filing a leaf takes no node away.
pub proof fn lemma_with_leaf_keeps_nodes(
    graph: GraphView,
    u: GitUrlView,
    path: Seq<char>,
    leaf: RepoCredView,
    v: GitUrlView,
)
    ensures
        repo_at(with_leaf(graph, u, path, leaf), u) is Some,
        repo_at(graph, v) is Some ==> repo_at(with_leaf(graph, u, path, leaf), v) is Some,
{
    let repo = inner(inner(inner(graph, domain_key(u)), u.org), u.repo);
    lemma_with_repo_at(graph, u, put(repo, path, leaf), u);
    lemma_with_repo_at(graph, u, put(repo, path, leaf), v);
}

/// Filing a leaf after making the nodes is filing the leaf.
pub proof fn lemma_with_leaf_after_node(
    graph: GraphView,
    u: GitUrlView,
    path: Seq<char>,
    leaf: RepoCredView,
)
    ensures
        with_leaf(with_node(graph, u), u, path, leaf) == with_leaf(graph, u, path, leaf),
{
    let domain = inner(graph, domain_key(u));
    let org = inner(domain, u.org);
    let repo = inner(org, u.repo);
    let new_org = put(org, u.repo, repo);
    let new_domain = put(domain, u.org, new_org);
    lemma_put_entry(graph, domain_key(u), new_domain, domain_key(u));
    lemma_put_entry(domain, u.org, new_org, u.org);
    lemma_put_entry(org, u.repo, repo, u.repo);
    lemma_put_twice(org, u.repo, repo, put(repo, path, leaf));
    lemma_put_twice(domain, u.org, new_org, put(org, u.repo, put(repo, path, leaf)));
    lemma_put_twice(
        graph,
        domain_key(u),
        new_domain,
        put(domain, u.org, put(org, u.repo, put(repo, path, leaf))),
    );
}

/// Whether `d`, `o` and `r` are the places of the identity, the organization
/// and the repository of `u` in their tables.
pub open spec fn node_at(graph: GraphView, u: GitUrlView, d: int, o: int, r: int) -> bool {
    &&& d == key_index(graph, domain_key(u))
    &&& 0 <= d < graph.len()
    &&& o == key_index(graph[d].1, u.org)
    &&& 0 <= o < graph[d].1.len()
    &&& r == key_index(graph[d].1[o].1, u.repo)
    &&& 0 <= r < graph[d].1[o].1.len()
}

/// Makes sure that the graph has nodes for the identity, the organization and
/// the repository of `git_url`, and says where they stand.
pub fn ensure_node(rg: &mut RepoGraph, git_url: &GitUrl) -> (at: (usize, usize, usize))
    requires
        graph_wf(old(rg).deep_view()),
    ensures
        final(rg).deep_view() == with_node(old(rg).deep_view(), git_url@),
        graph_wf(final(rg).deep_view()),
        node_at(final(rg).deep_view(), git_url@, at.0 as int, at.1 as int, at.2 as int),
{
    let ghost before = rg.deep_view();
    let ghost u = git_url@;
    let ghost domain = inner(before, domain_key(u));
    let ghost org = inner(domain, u.org);
    let ghost repo = inner(org, u.repo);
    let ghost new_org = put(org, u.repo, repo);
    let ghost new_domain = put(domain, u.org, new_org);
    proof {
        lemma_key_index_bounds(before, domain_key(u));
        lemma_key_index_bounds(domain, u.org);
        lemma_key_index_bounds(org, u.repo);
        lemma_put_index(org, u.repo, repo, u.repo);
        lemma_put_index(domain, u.org, new_org, u.org);
        lemma_put_index(before, domain_key(u), new_domain, domain_key(u));
        lemma_with_node_wf(before, u);
    }
    let key = url_to_domain(git_url);
    let at = match rg.position(&key) {
        Some(d) => {
            match rg.entries[d].1.position(&git_url.org) {
                Some(o) => {
                    match rg.entries[d].1.entries[o].1.position(&git_url.repo) {
                        Some(r) => {
                            proof {
                                assert(new_org =~= org);
                            }
                            (d, o, r)
                        },
                        None => {
                            let r = rg.entries[d].1.entries[o].1.entries.len();
                            rg.entries[d].1.entries[o].1.entries.push(
                                (git_url.repo.clone(), Table::new()),
                            );
                            (d, o, r)
                        },
                    }
                },
                None => {
                    let o = rg.entries[d].1.entries.len();
                    let mut org: Org = Table::new();
                    org.entries.push((git_url.repo.clone(), Table::new()));
                    rg.entries[d].1.entries.push((git_url.org.clone(), org));
                    (d, o, 0)
                },
            }
        },
        None => {
            let d = rg.entries.len();
            let mut org: Org = Table::new();
            org.entries.push((git_url.repo.clone(), Table::new()));
            let mut domain: Domain = Table::new();
            domain.entries.push((git_url.org.clone(), org));
            rg.entries.push((key, domain));
            (d, 0, 0)
        },
    };
    proof {
        assert(rg.deep_view() =~~= put(before, domain_key(u), new_domain));
    }
    at
}

/// Puts `leaf` at `path` among the clones of the repository that stands at
/// `at`.
pub(crate) fn set_leaf_at(
    rg: &mut RepoGraph,
    git_url: &GitUrl,
    at: (usize, usize, usize),
    repo_path: &String,
    leaf: RepoCred,
)
    requires
        graph_wf(old(rg).deep_view()),
        node_at(old(rg).deep_view(), git_url@, at.0 as int, at.1 as int, at.2 as int),
        distinct(leaf.seen@),
    ensures
        final(rg).deep_view() == with_leaf(
            old(rg).deep_view(),
            git_url@,
            repo_path@,
            leaf.deep_view(),
        ),
        graph_wf(final(rg).deep_view()),
        node_at(final(rg).deep_view(), git_url@, at.0 as int, at.1 as int, at.2 as int),
{
    let ghost before = rg.deep_view();
    let ghost u = git_url@;
    let ghost domain = before[at.0 as int].1;
    let ghost org = domain[at.1 as int].1;
    let ghost repo = org[at.2 as int].1;
    let ghost new_repo = put(repo, repo_path@, leaf.deep_view());
    let ghost new_org = put(org, u.repo, new_repo);
    let ghost new_domain = put(domain, u.org, new_org);
    proof {
        lemma_key_index_bounds(repo, repo_path@);
        lemma_put_index(org, u.repo, new_repo, u.repo);
        lemma_put_index(domain, u.org, new_org, u.org);
        lemma_put_index(before, domain_key(u), new_domain, domain_key(u));
        lemma_with_leaf_wf(before, u, repo_path@, leaf.deep_view());
    }
    match rg.entries[at.0].1.entries[at.1].1.entries[at.2].1.position(repo_path) {
        Some(p) => {
            rg.entries[at.0].1.entries[at.1].1.entries[at.2].1.entries[p].1 = leaf;
        },
        None => {
            rg.entries[at.0].1.entries[at.1].1.entries[at.2].1.entries.push(
                (repo_path.clone(), leaf),
            );
        },
    }
    proof {
        assert(rg.deep_view() =~~= put(before, domain_key(u), new_domain));
    }
}

/// What the graph knows of the clone of `git_url` at `repo_path`.
pub fn lookup<'a>(rg: &'a RepoGraph, git_url: &GitUrl, repo_path: &String) -> (r: Option<
    &'a RepoCred,
>)
    ensures
        r.deep_view() == leaf_at(rg.deep_view(), git_url@, repo_path@),
{
    let key = url_to_domain(git_url);
    let d = rg.position(&key)?;
    let domain = &rg.entries[d].1;
    let o = domain.position(&git_url.org)?;
    let org = &domain.entries[o].1;
    let r = org.position(&git_url.repo)?;
    let repo = &org.entries[r].1;
    let p = repo.position(repo_path)?;
    Some(&repo.entries[p].1)
}

/// Files `state` for the clone of `git_url` at `repo_path`, in place of what
/// the graph knew of that clone. Missing nodes are made first.
pub fn insert(rg: &mut RepoGraph, git_url: &GitUrl, repo_path: &String, state: RepoCred)
    requires
        graph_wf(old(rg).deep_view()),
        distinct(state.seen@),
    ensures
        final(rg).deep_view() == with_leaf(
            old(rg).deep_view(),
            git_url@,
            repo_path@,
            state.deep_view(),
        ),
        graph_wf(final(rg).deep_view()),
        leaf_at(final(rg).deep_view(), git_url@, repo_path@) == Some(state.deep_view()),
{
    let at = ensure_node(rg, git_url);
    set_leaf_at(rg, git_url, at, repo_path, state);
    proof {
        lemma_with_leaf_after_node(old(rg).deep_view(), git_url@, repo_path@, state.deep_view());
        lemma_with_leaf_at(
            old(rg).deep_view(),
            git_url@,
            repo_path@,
            state.deep_view(),
            git_url@,
            repo_path@,
        );
    }
}

} // verus!
