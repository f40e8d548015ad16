//! Remote URLs, and the identity that a clone's remote gives it.

use vstd::prelude::*;
use vstd::string::*;
use crate::string_ops::{
    join_first, join_seq, lemma_split_first, lemma_split_whole, split, split_seq, starts_with,
};

verus! {

/// The identity of a remote repository.
#[derive(Debug, PartialEq, Eq)]
pub struct GitUrl {
    pub domain: String,
    pub org: String,
    pub repo: String,
    pub scheme: String,
    pub username: String,
}

/// The mathematical content of a `GitUrl`.
pub struct GitUrlView {
    pub domain: Seq<char>,
    pub org: Seq<char>,
    pub repo: Seq<char>,
    pub scheme: Seq<char>,
    pub username: Seq<char>,
}

impl View for GitUrl {
    type V = GitUrlView;

    open spec fn view(&self) -> GitUrlView {
        GitUrlView {
            domain: self.domain@,
            org: self.org@,
            repo: self.repo@,
            scheme: self.scheme@,
            username: self.username@,
        }
    }
}

impl Clone for GitUrl {
    fn clone(&self) -> (r: Self)
        ensures
            r@ == self@,
    {
        GitUrl {
            domain: self.domain.clone(),
            org: self.org.clone(),
            repo: self.repo.clone(),
            scheme: self.scheme.clone(),
            username: self.username.clone(),
        }
    }
}

/// The URL parser's error, `url::ParseError`. Values of it are only passed
/// on.
#[verifier::external_type_specification]
#[verifier::external_body]
pub struct ExUrlParseError(url::ParseError);

/// Why a remote URL gave no identity.
#[derive(Debug)]
pub enum UpgitErr {
    /// The text is not of the form `user@host:path`; the message says what
    /// is missing.
    UrlParse(String),
    /// The text is not an absolute URL.
    Url(url::ParseError),
}

/// An error that says what a `user@host:path` remote lacks.
pub fn mk_err(x: &str) -> (r: Box<UpgitErr>)
    ensures
        *r matches UpgitErr::UrlParse(m) && m@ == x@,
{
    Box::new(UpgitErr::UrlParse(String::from_str(x)))
}

/// The organization in a path: all segments but the last, with `/` between
/// them. Empty where there is no segment or one.
pub open spec fn org_of(segments: Seq<Seq<char>>) -> Seq<char> {
    if segments.len() == 0 {
        Seq::empty()
    } else {
        join_seq(segments.drop_last(), seq!['/'])
    }
}

/// The repository in a path: the last segment. Empty where there is none.
pub open spec fn repo_of(segments: Seq<Seq<char>>) -> Seq<char> {
    if segments.len() == 0 {
        Seq::empty()
    } else {
        segments.last()
    }
}

/// The organization and the repository that the segments of a path name.
pub fn org_and_repo(segments: &Vec<String>) -> (r: (String, String))
    ensures
        r.0@ == org_of(segments.deep_view()),
        r.1@ == repo_of(segments.deep_view()),
        segments.len() == 0 ==> r.0@.len() == 0 && r.1@.len() == 0,
        segments.len() == 1 ==> r.0@.len() == 0 && r.1@ == segments[0]@,
        segments.len() == 3 ==> r.0@ == segments[0]@ + seq!['/'] + segments[1]@ && r.1@
            == segments[2]@,
{
    let n = segments.len();
    if n == 0 {
        (String::new(), String::new())
    } else {
        proof {
            reveal_strlit("/");
            assert("/"@ =~= seq!['/']);
            if n == 3 {
                lemma_join_two(segments[0]@, segments[1]@, seq!['/']);
                assert(segments.deep_view().drop_last() =~= seq![segments[0]@, segments[1]@]);
            }
        }
        (join_first(segments, n - 1, "/"), segments[n - 1].clone())
    }
}

/// Two pieces joined are the first, the separator and the second.
pub proof fn lemma_join_two(a: Seq<char>, b: Seq<char>, sep: Seq<char>)
    ensures
        join_seq(seq![a, b], sep) == a + sep + b,
{
    let two = seq![a, b];
    assert(two.drop_last() =~= seq![a]);
    assert(join_seq(seq![a], sep) == a);
}

/// The identity that a remote of the form `user@host:path` names, if the text
/// has that form: the user is what stands before the first `@`, the host what
/// follows up to the first `:`, and the path what follows that, each taken up
/// to the next separator of its kind.
pub open spec fn ssh_identity(input: Seq<char>) -> Option<GitUrlView> {
    let parts = split_seq(input, '@');
    if parts.len() < 2 {
        None
    } else {
        let host_parts = split_seq(parts[1], ':');
        if host_parts.len() < 2 {
            None
        } else {
            let segments = split_seq(host_parts[1], '/');
            Some(
                GitUrlView {
                    domain: host_parts[0],
                    org: org_of(segments),
                    repo: repo_of(segments),
                    scheme: "git"@,
                    username: parts[0],
                },
            )
        }
    }
}

/// A remote written as a user without `@`, an `@`, a host without `@` and
/// `:`, a `:` and a path without `@` and `:` names that user and that host,
/// under the scheme `git`, with the organization and the repository of the
/// path's segments.
pub proof fn lemma_ssh_identity(user: Seq<char>, host: Seq<char>, path: Seq<char>)
    requires
        !user.contains('@'),
        !host.contains('@'),
        !host.contains(':'),
        !path.contains('@'),
        !path.contains(':'),
    ensures
        ssh_identity(user + seq!['@'] + host + seq![':'] + path) == Some(
            GitUrlView {
                domain: host,
                org: org_of(split_seq(path, '/')),
                repo: repo_of(split_seq(path, '/')),
                scheme: "git"@,
                username: user,
            },
        ),
{
    let tail = host + seq![':'] + path;
    let input = user + seq!['@'] + host + seq![':'] + path;
    assert(input =~= user + seq!['@'] + tail);
    assert forall|i: int| 0 <= i < tail.len() implies tail[i] != '@' by {
        if i < host.len() {
            assert(tail[i] == host[i]);
            if host[i] == '@' {
                assert(host.contains('@'));
            }
        } else if i > host.len() {
            assert(tail[i] == path[i - host.len() - 1]);
            if path[i - host.len() - 1] == '@' {
                assert(path.contains('@'));
            }
        }
    }
    lemma_split_first(user, '@', tail);
    lemma_split_whole(tail, '@');
    lemma_split_first(host, ':', path);
    lemma_split_whole(path, ':');
}

/// A remote `user@host:org1/org2/repo` names the organization `org1/org2`
/// and the repository `repo`; one with an empty path names the empty
/// organization and the empty repository.
pub proof fn lemma_ssh_organizations(
    user: Seq<char>,
    host: Seq<char>,
    org1: Seq<char>,
    org2: Seq<char>,
    repo: Seq<char>,
)
    requires
        !user.contains('@'),
        !host.contains('@'),
        !host.contains(':'),
        forall|c: char| c == '@' || c == ':' || c == '/' ==> !org1.contains(c) && !org2.contains(c)
            && !repo.contains(c),
    ensures
        ssh_identity(
            user + seq!['@'] + host + seq![':'] + org1 + seq!['/'] + org2 + seq!['/'] + repo,
        ) == Some(
            GitUrlView {
                domain: host,
                org: org1 + seq!['/'] + org2,
                repo,
                scheme: "git"@,
                username: user,
            },
        ),
        ssh_identity(user + seq!['@'] + host + seq![':']) == Some(
            GitUrlView {
                domain: host,
                org: Seq::empty(),
                repo: Seq::empty(),
                scheme: "git"@,
                username: user,
            },
        ),
{
    let tail = org2 + seq!['/'] + repo;
    let path = org1 + seq!['/'] + tail;
    assert(path =~= org1 + seq!['/'] + org2 + seq!['/'] + repo);
    assert(user + seq!['@'] + host + seq![':'] + path =~= user + seq!['@'] + host + seq![':']
        + org1 + seq!['/'] + org2 + seq!['/'] + repo);
    assert forall|c: char| c == '@' || c == ':' implies !path.contains(c) by {
        if path.contains(c) {
            let i = choose|i: int| 0 <= i < path.len() && path[i] == c;
            if i < org1.len() {
                assert(org1[i] == c);
                assert(org1.contains(c));
            } else if i > org1.len() {
                let j = i - org1.len() - 1;
                if j < org2.len() {
                    assert(org2[j] == c);
                    assert(org2.contains(c));
                } else if j > org2.len() {
                    assert(repo[j - org2.len() - 1] == c);
                    assert(repo.contains(c));
                }
            }
        }
    }
    lemma_ssh_identity(user, host, path);
    lemma_split_first(org1, '/', tail);
    lemma_split_first(org2, '/', repo);
    lemma_split_whole(repo, '/');
    assert(split_seq(path, '/') =~= seq![org1, org2, repo]);
    assert(seq![org1, org2, repo].drop_last() =~= seq![org1, org2]);
    lemma_join_two(org1, org2, seq!['/']);

    lemma_ssh_identity(user, host, Seq::empty());
}

/// Reads a remote of the form `user@host:org/path/repo.git`. The scheme of
/// the identity is always `git`. Fails when the text has no `@`, or no `:`
/// after it.
pub fn parse_git_url(input_url: String) -> (r: Result<GitUrl, Box<UpgitErr>>)
    ensures
        match r {
            Ok(u) => ssh_identity(input_url@) == Some(u@),
            Err(e) => {
                &&& ssh_identity(input_url@) is None
                &&& *e matches UpgitErr::UrlParse(m)
                &&& m@ == "did not have other info"@
            },
        },
{
    let parts = split(input_url.as_str(), '@');
    if parts.len() < 2 {
        return Err(mk_err("did not have other info"));
    }
    let host_parts = split(parts[1].as_str(), ':');
    if host_parts.len() < 2 {
        return Err(mk_err("did not have other info"));
    }
    let segments = split(host_parts[1].as_str(), '/');
    let (org, repo) = org_and_repo(&segments);
    Ok(
        GitUrl {
            domain: host_parts[0].clone(),
            org,
            repo,
            scheme: String::from_str("git"),
            username: parts[0].clone(),
        },
    )
}

/// What the identity of a remote takes from an absolute URL.
#[derive(Debug)]
pub struct UrlParts {
    /// The scheme, without the `:`.
    pub scheme: String,
    /// The user name; empty where the URL names none.
    pub username: String,
    /// The host, where the URL has one.
    pub host: Option<String>,
    /// The segments of the path, unless the URL cannot be a base.
    pub segments: Option<Vec<String>>,
}

/// The mathematical content of a `UrlParts`.
pub struct UrlPartsView {
    pub scheme: Seq<char>,
    pub username: Seq<char>,
    pub host: Option<Seq<char>>,
    pub segments: Option<Seq<Seq<char>>>,
}

impl View for UrlParts {
    type V = UrlPartsView;

    open spec fn view(&self) -> UrlPartsView {
        UrlPartsView {
            scheme: self.scheme@,
            username: self.username@,
            host: self.host.deep_view(),
            segments: self.segments.deep_view(),
        }
    }
}

/// What the URL parser makes of a text: the parts of the URL record, or
/// nothing where the text is not an absolute URL.
pub uninterp spec fn url_record(input: Seq<char>) -> Option<UrlPartsView>;

/// Parses an absolute URL with `url::Url::parse` and reads from the record
/// its `scheme`, `username`, `host_str` and `path_segments`. The result is a
/// function of the text alone, which `url_record` names; the error is the
/// parser's own.
#[verifier::external_body]
fn parse_absolute(input: &str) -> (r: Result<UrlParts, url::ParseError>)
    ensures
        r is Ok <==> url_record(input@) is Some,
        r matches Ok(parts) ==> url_record(input@) == Some(parts@),
{
    let record = url::Url::parse(input)?;
    Ok(
        UrlParts {
            scheme: record.scheme().to_string(),
            username: record.username().to_string(),
            host: record.host_str().map(|h| h.to_string()),
            segments: record.path_segments().map(|s| s.map(|x| x.to_string()).collect()),
        },
    )
}

/// The identity that the parts of a URL give: its scheme, user and host, the
/// path's last segment as the repository and the segments before it as the
/// organization. A missing host is the empty host, a missing path the empty
/// path.
pub open spec fn identity_of(parts: UrlPartsView) -> GitUrlView {
    let segments = match parts.segments {
        Some(s) => s,
        None => Seq::empty(),
    };
    GitUrlView {
        domain: match parts.host {
            Some(h) => h,
            None => Seq::empty(),
        },
        org: org_of(segments),
        repo: repo_of(segments),
        scheme: parts.scheme,
        username: parts.username,
    }
}

impl GitUrl {
    /// The identity that the parts of a URL give.
    pub fn from_parts(parts: UrlParts) -> (r: GitUrl)
        ensures
            r@ == identity_of(parts@),
            parts@.segments matches Some(s) ==> (s.len() == 3 ==> r@.org == s[0] + seq!['/'] + s[1]
                && r@.repo == s[2]),
            parts@.segments matches Some(s) ==> (s.len() == 0 ==> r@.org.len() == 0
                && r@.repo.len() == 0),
            parts@.segments is None ==> r@.org.len() == 0 && r@.repo.len() == 0,
    {
        let (org, repo) = match &parts.segments {
            Some(s) => org_and_repo(s),
            None => (String::new(), String::new()),
        };
        let domain = match parts.host {
            Some(h) => h,
            None => String::new(),
        };
        GitUrl { domain, org, repo, scheme: parts.scheme, username: parts.username }
    }
}

/// Whether a remote is written as `user@host:path` rather than as a URL: it
/// does not begin with `http://` or `https://`, and it has an `@` with a `:`
/// after it.
pub open spec fn is_ssh_shorthand(input: Seq<char>) -> bool {
    &&& !"http://"@.is_prefix_of(input)
    &&& !"https://"@.is_prefix_of(input)
    &&& ssh_identity(input) is Some
}

/// The text that is handed to the URL parser: the remote itself where it
/// begins with `http://` or `https://`, else the remote behind `unknown://`.
pub open spec fn with_scheme(input: Seq<char>) -> Seq<char> {
    if "https://"@.is_prefix_of(input) || "http://"@.is_prefix_of(input) {
        input
    } else {
        "unknown://"@ + input
    }
}

/// The identity that a remote names, if it names one.
pub open spec fn remote_identity(input: Seq<char>) -> Option<GitUrlView> {
    if is_ssh_shorthand(input) {
        ssh_identity(input)
    } else {
        match url_record(with_scheme(input)) {
            Some(parts) => Some(identity_of(parts)),
            None => None,
        }
    }
}

/// A remote of the form `user@host:path` that does not begin with `http://`
/// or `https://` never reaches the URL parser: its identity is the one that
/// its form gives.
pub proof fn lemma_shorthand_identity(input: Seq<char>)
    requires
        ssh_identity(input) is Some,
        !"http://"@.is_prefix_of(input),
        !"https://"@.is_prefix_of(input),
    ensures
        remote_identity(input) == ssh_identity(input),
{
}

/// Reads the identity of a remote. A remote of the form `user@host:path` is
/// read by `parse_git_url`. Any other is parsed as an absolute URL, behind the
/// scheme `unknown` where it has neither `http` nor `https`, and fails with
/// the URL parser's error where that parser fails.
pub fn parse_url(input_url: String) -> (r: Result<GitUrl, Box<UpgitErr>>)
    ensures
        match r {
            Ok(u) => remote_identity(input_url@) == Some(u@),
            Err(e) => remote_identity(input_url@) is None && *e is Url,
        },
{
    let https = starts_with(input_url.as_str(), "https://");
    let http = starts_with(input_url.as_str(), "http://");
    if !https && !http {
        match parse_git_url(input_url.clone()) {
            Ok(u) => {
                return Ok(u);
            },
            Err(_) => {},
        }
    }
    let with_protocol = if https || http {
        input_url
    } else {
        String::from_str("unknown://").concat(input_url.as_str())
    };
    match parse_absolute(with_protocol.as_str()) {
        Ok(parts) => Ok(GitUrl::from_parts(parts)),
        Err(e) => Err(Box::new(UpgitErr::Url(e))),
    }
}

} // verus!
