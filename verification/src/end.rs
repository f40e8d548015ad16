//! How the update of one clone ended, and the grouping of many such ends for
//! the report.

use vstd::prelude::*;
use vstd::string::*;

verus! {

/// The kinds of end that the update of a clone can come to.
#[derive(Debug, Hash, PartialEq, Eq, Clone, Copy, Structural)]
pub enum Status {
    NonRepo,
    NoRemotes,
    Dirty,
    RemoteHeadMismatch,
    UpToDate,
    Updated,
    NoClearOrigin,
    BareRepository,
    FailedMergeAnalysis,
    RevertedConflict,
    UnresolvedConflict,
    NeedsResolution,
    FailedFetch,
    /// An error that has no kind of its own.
    WIPOther,
}

impl DeepView for Status {
    type V = Status;

    open spec fn deep_view(&self) -> Status {
        *self
    }
}

/// How the update of the clone at `path` ended, with a free-text report.
#[derive(Debug)]
pub struct End {
    pub path: String,
    pub status: Status,
    pub report: String,
}

/// The mathematical content of an `End`.
pub struct EndView {
    pub path: Seq<char>,
    pub status: Status,
    pub report: Seq<char>,
}

impl View for End {
    type V = EndView;

    open spec fn view(&self) -> EndView {
        EndView { path: self.path@, status: self.status, report: self.report@ }
    }
}

impl DeepView for End {
    type V = EndView;

    open spec fn deep_view(&self) -> EndView {
        self@
    }
}

impl Clone for End {
    fn clone(&self) -> (r: Self)
        ensures
            r@ == self@,
    {
        End { path: self.path.clone(), status: self.status, report: self.report.clone() }
    }
}

/// The end of something that is no repository.
pub fn non_repo(path: String, report: String) -> (r: End)
    ensures
        r@ == (EndView { path: path@, status: Status::NonRepo, report: report@ }),
{
    End { status: Status::NonRepo, path, report }
}

/// A maker of ends for the clone at `path`, from a status and a report.
pub fn with_path(path: String) -> (f: impl Fn(Status, String) -> End)
    ensures
        forall|status: Status, report: String| f.requires((status, report)),
        forall|status: Status, report: String, e: End|
            f.ensures((status, report), e) ==> e@ == (EndView {
                path: path@,
                status,
                report: report@,
            }),
{
    move |status: Status, report: String| -> (e: End)
        ensures
            e@ == (EndView { path: path@, status, report: report@ }),
        { End { path: path.clone(), status, report } }
}

/// A maker of ends without a kind of their own for the clone at `path`, from
/// a report.
pub fn other(path: String) -> (f: impl Fn(String) -> End)
    ensures
        forall|report: String| f.requires((report,)),
        forall|report: String, e: End|
            f.ensures((report,), e) ==> e@ == (EndView {
                path: path@,
                status: Status::WIPOther,
                report: report@,
            }),
{
    move |report: String| -> (e: End)
        ensures
            e@ == (EndView { path: path@, status: Status::WIPOther, report: report@ }),
        { End { path: path.clone(), status: Status::WIPOther, report } }
}

/// A maker of ends with an empty report for the clone at `path`, from a
/// status.
pub fn sans_report(path: String) -> (f: impl Fn(Status) -> End)
    ensures
        forall|status: Status| f.requires((status,)),
        forall|status: Status, e: End|
            f.ensures((status,), e) ==> e@ == (EndView {
                path: path@,
                status,
                report: Seq::empty(),
            }),
{
    move |status: Status| -> (e: End)
        ensures
            e@ == (EndView { path: path@, status, report: Seq::empty() }),
        { End { path: path.clone(), status, report: String::new() } }
}

/// How much of a group the report shows.
#[derive(Debug, Clone, Copy, PartialEq, Eq, Structural)]
pub enum Detail {
    /// The number of ends, and the path of each.
    Paths,
    /// The number of ends, and the path and the report of each.
    Reports,
    /// The number of ends alone.
    Count,
    /// The number of ends, and for each its path with what changed.
    Changes,
}

/// The statuses in the order in which the report shows their groups.
pub open spec fn report_sequence() -> Seq<Status> {
    seq![
        Status::NonRepo,
        Status::NoRemotes,
        Status::NoClearOrigin,
        Status::BareRepository,
        Status::RemoteHeadMismatch,
        Status::UpToDate,
        Status::FailedMergeAnalysis,
        Status::RevertedConflict,
        Status::UnresolvedConflict,
        Status::Dirty,
        Status::FailedFetch,
        Status::NeedsResolution,
        Status::WIPOther,
        Status::Updated,
    ]
}

/// The statuses in the order in which the report shows their groups. Every
/// status occurs once.
pub fn report_order() -> (r: Vec<Status>)
    ensures
        r@ == report_sequence(),
        forall|s: Status| r@.contains(s),
{
    let r = vec![
        Status::NonRepo,
        Status::NoRemotes,
        Status::NoClearOrigin,
        Status::BareRepository,
        Status::RemoteHeadMismatch,
        Status::UpToDate,
        Status::FailedMergeAnalysis,
        Status::RevertedConflict,
        Status::UnresolvedConflict,
        Status::Dirty,
        Status::FailedFetch,
        Status::NeedsResolution,
        Status::WIPOther,
        Status::Updated,
    ];
    proof {
        assert forall|s: Status| r@.contains(s) by {
            let i: int = match s {
                Status::NonRepo => 0,
                Status::NoRemotes => 1,
                Status::NoClearOrigin => 2,
                Status::BareRepository => 3,
                Status::RemoteHeadMismatch => 4,
                Status::UpToDate => 5,
                Status::FailedMergeAnalysis => 6,
                Status::RevertedConflict => 7,
                Status::UnresolvedConflict => 8,
                Status::Dirty => 9,
                Status::FailedFetch => 10,
                Status::NeedsResolution => 11,
                Status::WIPOther => 12,
                Status::Updated => 13,
            };
            assert(r@[i] == s);
        }
    }
    r
}

/// The heading of a status's group in the report.
pub open spec fn label_of(status: Status) -> Seq<char> {
    match status {
        Status::NonRepo => "Not a repo"@,
        Status::NoRemotes => "No remote"@,
        Status::NoClearOrigin => "No clear remote origin"@,
        Status::BareRepository => "Bare repo, skipped"@,
        Status::RemoteHeadMismatch => "Remote head mismatch"@,
        Status::UpToDate => "Up to date"@,
        Status::FailedMergeAnalysis => "Failed merge analysis"@,
        Status::RevertedConflict => "Reverted conflict"@,
        Status::UnresolvedConflict => "Unresolved conflict"@,
        Status::Dirty => "Dirty, skipped"@,
        Status::FailedFetch => "Couldn't fetch"@,
        Status::NeedsResolution => "Needs resolution"@,
        Status::WIPOther => "Other error"@,
        Status::Updated => "Updated"@,
    }
}

/// The heading of a status's group in the report.
pub fn label(status: Status) -> (r: &'static str)
    ensures
        r@ == label_of(status),
{
    match status {
        Status::NonRepo => "Not a repo",
        Status::NoRemotes => "No remote",
        Status::NoClearOrigin => "No clear remote origin",
        Status::BareRepository => "Bare repo, skipped",
        Status::RemoteHeadMismatch => "Remote head mismatch",
        Status::UpToDate => "Up to date",
        Status::FailedMergeAnalysis => "Failed merge analysis",
        Status::RevertedConflict => "Reverted conflict",
        Status::UnresolvedConflict => "Unresolved conflict",
        Status::Dirty => "Dirty, skipped",
        Status::FailedFetch => "Couldn't fetch",
        Status::NeedsResolution => "Needs resolution",
        Status::WIPOther => "Other error",
        Status::Updated => "Updated",
    }
}

/// How much the report shows of a status's group.
pub open spec fn detail_of(status: Status) -> Detail {
    match status {
        Status::NonRepo | Status::NoRemotes | Status::RemoteHeadMismatch => Detail::Paths,
        Status::BareRepository | Status::UpToDate | Status::FailedMergeAnalysis => Detail::Count,
        Status::Updated => Detail::Changes,
        _ => Detail::Reports,
    }
}

/// How much the report shows of a status's group.
pub fn detail(status: Status) -> (r: Detail)
    ensures
        r == detail_of(status),
{
    match status {
        Status::NonRepo | Status::NoRemotes | Status::RemoteHeadMismatch => Detail::Paths,
        Status::BareRepository | Status::UpToDate | Status::FailedMergeAnalysis => Detail::Count,
        Status::Updated => Detail::Changes,
        _ => Detail::Reports,
    }
}

/// Index of the group of `status`; `groups.len()` when there is none.
pub open spec fn group_index(groups: Seq<(Status, Seq<EndView>)>, status: Status) -> int
    decreases groups.len(),
{
    if groups.len() == 0 {
        0
    } else if groups[0].0 == status {
        0
    } else {
        1 + group_index(groups.drop_first(), status)
    }
}

/// The groups with one more end: at the end of the group of its status, or
/// as a new group behind the others.
pub open spec fn with_end(groups: Seq<(Status, Seq<EndView>)>, e: EndView) -> Seq<
    (Status, Seq<EndView>),
> {
    let i = group_index(groups, e.status);
    if i < groups.len() {
        groups.update(i, (groups[i].0, groups[i].1.push(e)))
    } else {
        groups.push((e.status, seq![e]))
    }
}

/// The ends by status: one group for each status that occurs, in the order in
/// which the statuses first occur, each with its ends in their order.
pub open spec fn grouped(ends: Seq<EndView>) -> Seq<(Status, Seq<EndView>)>
    decreases ends.len(),
{
    if ends.len() == 0 {
        Seq::empty()
    } else {
        with_end(grouped(ends.drop_last()), ends.last())
    }
}

/// The ends of the group of `status`, if that status occurs.
pub open spec fn members(groups: Seq<(Status, Seq<EndView>)>, status: Status) -> Option<
    Seq<EndView>,
> {
    let i = group_index(groups, status);
    if i < groups.len() {
        Some(groups[i].1)
    } else {
        None
    }
}

/// `group_index` is the position of the first group of the status, and the
/// length where there is none.
pub proof fn lemma_group_index(groups: Seq<(Status, Seq<EndView>)>, status: Status)
    ensures
        0 <= group_index(groups, status) <= groups.len(),
        group_index(groups, status) < groups.len() ==> groups[group_index(groups, status)].0
            == status,
        forall|j: int| 0 <= j < group_index(groups, status) ==> groups[j].0 != status,
    decreases groups.len(),
{
    if groups.len() != 0 && groups[0].0 != status {
        let rest = groups.drop_first();
        lemma_group_index(rest, status);
        assert forall|j: int| 0 <= j < group_index(groups, status) implies groups[j].0
            != status by {
            if j > 0 {
                assert(groups[j] == rest[j - 1]);
            }
        }
    }
}

/// A position that holds the status with no such group before it is the
/// status's index.
pub proof fn lemma_group_index_is(groups: Seq<(Status, Seq<EndView>)>, status: Status, i: int)
    requires
        0 <= i <= groups.len(),
        forall|j: int| 0 <= j < i ==> groups[j].0 != status,
        i < groups.len() ==> groups[i].0 == status,
    ensures
        group_index(groups, status) == i,
    decreases groups.len(),
{
    if groups.len() != 0 && i != 0 {
        lemma_group_index_is(groups.drop_first(), status, i - 1);
    }
}

/// The ends of `ends` that have the status `status`, in their order.
pub open spec fn with_status(ends: Seq<EndView>, status: Status) -> Seq<EndView> {
    ends.filter(|e: EndView| e.status == status)
}

/// Every status has at most one group, and the group of a status holds, in
/// their order, exactly the ends with that status. A status without ends has
/// no group.
pub proof fn lemma_grouped_members(ends: Seq<EndView>, status: Status)
    ensures
        members(grouped(ends), status) == if with_status(ends, status).len() > 0 {
            Some(with_status(ends, status))
        } else {
            None
        },
        forall|i: int, j: int|
            0 <= i < j < grouped(ends).len() ==> grouped(ends)[i].0 != grouped(ends)[j].0,
    decreases ends.len(),
{
    reveal(Seq::filter);
    if ends.len() != 0 {
        let init = ends.drop_last();
        let e = ends.last();
        let before = grouped(init);
        let after = grouped(ends);
        lemma_grouped_members(init, status);
        lemma_group_index(before, status);
        lemma_group_index(before, e.status);
        let i = group_index(before, status);
        assert forall|a: int, b: int| 0 <= a < b < after.len() implies after[a].0 != after[b].0 by {
            if b < before.len() {
                assert(after[a].0 == before[a].0);
                assert(after[b].0 == before[b].0);
            } else {
                assert(after[a].0 == before[a].0);
            }
        }
        if i < before.len() {
            assert forall|j: int| 0 <= j < i implies after[j].0 != status by {
                assert(after[j].0 == before[j].0);
            }
            assert(after[i].0 == status);
            lemma_group_index_is(after, status, i);
        } else if e.status == status {
            lemma_group_index_is(after, status, before.len() as int);
        } else {
            assert forall|j: int| 0 <= j < after.len() implies after[j].0 != status by {
                if j < before.len() {
                    assert(after[j].0 == before[j].0);
                }
            }
            lemma_group_index_is(after, status, after.len() as int);
        }
    }
}

/// Ends grouped by status.
#[derive(Debug)]
pub struct Groups {
    groups: Vec<(Status, Vec<End>)>,
}

impl View for Groups {
    type V = Seq<(Status, Seq<EndView>)>;

    closed spec fn view(&self) -> Seq<(Status, Seq<EndView>)> {
        self.groups.deep_view()
    }
}

impl Groups {
    /// Where the group of `status` stands.
    fn position(&self, status: Status) -> (r: Option<usize>)
        ensures
            match r {
                Some(i) => i < self@.len() && i == group_index(self@, status) && i
                    < self.groups.len(),
                None => group_index(self@, status) == self@.len(),
            },
    {
        let mut i: usize = 0;
        while i < self.groups.len()
            invariant
                i <= self.groups.len(),
                forall|j: int| 0 <= j < i ==> self@[j].0 != status,
            decreases self.groups.len() - i,
        {
            if self.groups[i].0 == status {
                proof {
                    lemma_group_index_is(self@, status, i as int);
                }
                return Some(i);
            }
            i = i + 1;
        }
        proof {
            lemma_group_index_is(self@, status, self@.len() as int);
        }
        None
    }

    /// How many statuses occur.
    pub fn len(&self) -> (r: usize)
        ensures
            r == self@.len(),
    {
        self.groups.len()
    }

    /// The ends of the group of `status`, if that status occurs.
    pub fn get(&self, status: &Status) -> (r: Option<&Vec<End>>)
        ensures
            r.deep_view() == members(self@, *status),
    {
        match self.position(*status) {
            Some(i) => Some(&self.groups[i].1),
            None => None,
        }
    }
}

/// Groups ends by their status.
pub fn group(ends: Vec<End>) -> (r: Groups)
    ensures
        r@ == grouped(ends.deep_view()),
{
    let mut r = Groups { groups: Vec::new() };
    let ghost all = ends.deep_view();
    let ghost raw = ends@;
    for e in it: ends
        invariant
            it.seq() == raw,
            all.len() == raw.len(),
            forall|i: int| 0 <= i < raw.len() ==> all[i] == raw[i]@,
            r@ == grouped(all.take(it.index() as int)),
    {
        let ghost k = it.index() as int;
        let ghost before = r@;
        proof {
            let now = all.take(k + 1);
            assert(now.drop_last() =~= all.take(k));
        }
        match r.position(e.status) {
            Some(i) => {
                r.groups[i].1.push(e);
                proof {
                    assert(r@ =~~= before.update(
                        i as int,
                        (before[i as int].0, before[i as int].1.push(e@)),
                    ));
                }
            },
            None => {
                let status = e.status;
                let mut members: Vec<End> = Vec::new();
                members.push(e);
                proof {
                    assert(members.deep_view() =~= seq![e@]);
                }
                r.groups.push((status, members));
            },
        }
    }
    proof {
        assert(all.take(all.len() as int) =~= all);
    }
    r
}

} // verus!
