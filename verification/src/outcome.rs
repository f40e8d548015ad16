//! What the steps of one clone's update amount to: the reading of the
//! version-control engine's findings, and the wording of the report.

use vstd::prelude::*;
use vstd::string::*;
use crate::end::{End, EndView, Status};
use crate::string_ops::{join_first, join_seq};

verus! {

/// A message with the engine's own words below it.
pub open spec fn explained(what: Seq<char>, err: Seq<char>) -> Seq<char> {
    what + "\n    "@ + err
}

/// Words a failure: what was attempted, and below it what the engine said.
pub fn explain(what: &str, err: &str) -> (r: String)
    ensures
        r@ == explained(what@, err@),
{
    let mut r = String::from_str(what);
    r.append("\n    ");
    r.append(err);
    r
}

/// The lines of a report as one text, each line after the first indented.
pub fn join_lines(lines: &Vec<String>) -> (r: String)
    ensures
        r@ == join_seq(lines.deep_view(), "\n    "@),
{
    proof {
        assert(lines.deep_view().take(lines.len() as int) =~= lines.deep_view());
    }
    join_first(lines, lines.len(), "\n    ")
}

/// What the engine's merge analysis found.
#[derive(Debug, Clone, Copy, PartialEq, Eq, Structural)]
pub struct Analysis {
    pub fast_forward: bool,
    pub normal: bool,
    pub none: bool,
    pub up_to_date: bool,
    pub unborn: bool,
}

/// What to do after the merge analysis.
#[derive(Debug)]
pub enum MergePlan {
    /// Move the local branch forward to what was fetched.
    FastForward,
    /// Merge what was fetched into the local branch.
    Normal,
    /// Nothing is to be merged: the update has ended.
    Done(End),
}

/// The mathematical content of a `MergePlan`.
pub enum MergePlanView {
    FastForward,
    Normal,
    Done(EndView),
}

impl View for MergePlan {
    type V = MergePlanView;

    open spec fn view(&self) -> MergePlanView {
        match self {
            MergePlan::FastForward => MergePlanView::FastForward,
            MergePlan::Normal => MergePlanView::Normal,
            MergePlan::Done(e) => MergePlanView::Done(e@),
        }
    }
}

/// The plan that an analysis calls for. A fast-forward goes before a merge;
/// without either the update ends, up to date or with an error that says
/// what the analysis found.
pub open spec fn plan_of(analysis: Analysis, path: Seq<char>) -> MergePlanView {
    if analysis.fast_forward {
        MergePlanView::FastForward
    } else if analysis.normal {
        MergePlanView::Normal
    } else if analysis.none {
        MergePlanView::Done(
            EndView { path, status: Status::WIPOther, report: "Merge analysis is none."@ },
        )
    } else if analysis.up_to_date {
        MergePlanView::Done(EndView { path, status: Status::UpToDate, report: Seq::empty() })
    } else if analysis.unborn {
        MergePlanView::Done(
            EndView { path, status: Status::WIPOther, report: "Unborn merge analysis"@ },
        )
    } else {
        MergePlanView::Done(
            EndView {
                path,
                status: Status::WIPOther,
                report: "unknown status, this should probably not happen"@,
            },
        )
    }
}

/// Decides what follows the merge analysis of the clone at `repo_path`.
pub fn merge_plan(analysis: Analysis, repo_path: String) -> (r: MergePlan)
    ensures
        r@ == plan_of(analysis, repo_path@),
{
    if analysis.fast_forward {
        MergePlan::FastForward
    } else if analysis.normal {
        MergePlan::Normal
    } else if analysis.none {
        MergePlan::Done(
            End {
                path: repo_path,
                status: Status::WIPOther,
                report: String::from_str("Merge analysis is none."),
            },
        )
    } else if analysis.up_to_date {
        MergePlan::Done(End { path: repo_path, status: Status::UpToDate, report: String::new() })
    } else if analysis.unborn {
        MergePlan::Done(
            End {
                path: repo_path,
                status: Status::WIPOther,
                report: String::from_str("Unborn merge analysis"),
            },
        )
    } else {
        MergePlan::Done(
            End {
                path: repo_path,
                status: Status::WIPOther,
                report: String::from_str("unknown status, this should probably not happen"),
            },
        )
    }
}

/// What to do where the clone has no remote named `origin`.
#[derive(Debug, Clone, Copy, PartialEq, Eq, Structural)]
pub enum Fallback {
    /// Use the one remote that there is.
    UseOnly,
    /// Give up with this status.
    Fail(Status),
}

/// Decides what to do without a remote named `origin`, given how many
/// remotes the clone has, if they could be listed: one remote is used,
/// several are ambiguous, none or an unreadable list means no remote.
pub fn origin_fallback(remotes: Option<usize>) -> (r: Fallback)
    ensures
        r == match remotes {
            Some(n) => if n == 1 {
                Fallback::UseOnly
            } else if n > 1 {
                Fallback::Fail(Status::NoClearOrigin)
            } else {
                Fallback::Fail(Status::NoRemotes)
            },
            None => Fallback::Fail(Status::NoRemotes),
        },
{
    match remotes {
        Some(n) => if n == 1 {
            Fallback::UseOnly
        } else if n > 1 {
            Fallback::Fail(Status::NoClearOrigin)
        } else {
            Fallback::Fail(Status::NoRemotes)
        },
        None => Fallback::Fail(Status::NoRemotes),
    }
}

/// What the engine says of one path of the working tree.
#[derive(Debug, Clone, Copy, PartialEq, Eq, Structural)]
pub struct PathStatus {
    pub index_new: bool,
    pub index_modified: bool,
    pub index_deleted: bool,
    pub index_renamed: bool,
    pub index_typechange: bool,
    pub wt_new: bool,
    pub wt_modified: bool,
    pub wt_deleted: bool,
    pub wt_renamed: bool,
    pub wt_typechange: bool,
    pub conflicted: bool,
}

impl DeepView for PathStatus {
    type V = PathStatus;

    open spec fn deep_view(&self) -> PathStatus {
        *self
    }
}

/// The mark for what the index holds of a path: the first that applies of
/// new, modified, deleted, renamed and changed type.
pub open spec fn index_mark(s: PathStatus) -> Option<Seq<char>> {
    if s.index_new {
        Some("idx +: "@)
    } else if s.index_modified {
        Some("idx Δ: "@)
    } else if s.index_deleted {
        Some("idx -: "@)
    } else if s.index_renamed {
        Some("idx ->: "@)
    } else if s.index_typechange {
        Some("idx Δtype: "@)
    } else {
        None
    }
}

/// The mark for what the working tree holds of a path, chosen in the same
/// way.
pub open spec fn wt_mark(s: PathStatus) -> Option<Seq<char>> {
    if s.wt_new {
        Some("wt +: "@)
    } else if s.wt_modified {
        Some("wt Δ: "@)
    } else if s.wt_deleted {
        Some("wt -: "@)
    } else if s.wt_renamed {
        Some("wt ->: "@)
    } else if s.wt_typechange {
        Some("wt Δtype: "@)
    } else {
        None
    }
}

/// A line of the report: a mark and the path, or no line without a mark.
pub open spec fn marked(mark: Option<Seq<char>>, path: Seq<char>) -> Seq<Seq<char>> {
    match mark {
        Some(m) => seq![m + path],
        None => Seq::empty(),
    }
}

/// The lines that one path adds to the report of a dirty clone: one for the
/// index, one for the working tree and one for a conflict, each where it
/// applies.
pub open spec fn dirty_lines(s: PathStatus, path: Seq<char>) -> Seq<Seq<char>> {
    marked(index_mark(s), path) + marked(wt_mark(s), path) + marked(
        if s.conflicted {
            Some("conflict: "@)
        } else {
            None
        },
        path,
    )
}

/// The lines of all paths, in their order.
pub open spec fn all_dirty_lines(entries: Seq<(PathStatus, Seq<char>)>) -> Seq<Seq<char>>
    decreases entries.len(),
{
    if entries.len() == 0 {
        Seq::empty()
    } else {
        all_dirty_lines(entries.drop_last()) + dirty_lines(entries.last().0, entries.last().1)
    }
}

/// The mark for what the index holds of a path.
fn index_word(s: &PathStatus) -> (r: Option<&'static str>)
    ensures
        r.deep_view() == index_mark(*s),
{
    if s.index_new {
        Some("idx +: ")
    } else if s.index_modified {
        Some("idx Δ: ")
    } else if s.index_deleted {
        Some("idx -: ")
    } else if s.index_renamed {
        Some("idx ->: ")
    } else if s.index_typechange {
        Some("idx Δtype: ")
    } else {
        None
    }
}

/// The mark for what the working tree holds of a path.
fn wt_word(s: &PathStatus) -> (r: Option<&'static str>)
    ensures
        r.deep_view() == wt_mark(*s),
{
    if s.wt_new {
        Some("wt +: ")
    } else if s.wt_modified {
        Some("wt Δ: ")
    } else if s.wt_deleted {
        Some("wt -: ")
    } else if s.wt_renamed {
        Some("wt ->: ")
    } else if s.wt_typechange {
        Some("wt Δtype: ")
    } else {
        None
    }
}

/// Adds the line of a mark, if there is one.
fn push_marked(lines: &mut Vec<String>, mark: Option<&'static str>, path: &str)
    ensures
        final(lines).deep_view() == old(lines).deep_view() + marked(mark.deep_view(), path@),
{
    if let Some(m) = mark {
        lines.push(String::from_str(m).concat(path));
    }
}

/// What makes a clone dirty, one line for each finding, or nothing where the
/// working tree is clean. Where the engine could not tell, the one line says
/// so in the engine's words.
pub fn check_repo_dirty(statuses: Result<Vec<(PathStatus, String)>, String>) -> (r: Option<
    Vec<String>,
>)
    ensures
        r.deep_view() == match statuses {
            Ok(entries) => if all_dirty_lines(entries.deep_view()).len() > 0 {
                Some(all_dirty_lines(entries.deep_view()))
            } else {
                None
            },
            Err(err) => Some(seq!["statuses err: "@ + err@]),
        },
{
    let mut dirty_things: Vec<String> = Vec::new();
    match &statuses {
        Ok(entries) => {
            let mut i: usize = 0;
            while i < entries.len()
                invariant
                    i <= entries.len(),
                    dirty_things.deep_view() == all_dirty_lines(entries.deep_view().take(i as int)),
                decreases entries.len() - i,
            {
                proof {
                    let now = entries.deep_view().take(i + 1);
                    assert(now.drop_last() =~= entries.deep_view().take(i as int));
                }
                let status = &entries[i].0;
                let path = entries[i].1.as_str();
                push_marked(&mut dirty_things, index_word(status), path);
                push_marked(&mut dirty_things, wt_word(status), path);
                let conflict = if status.conflicted {
                    Some("conflict: ")
                } else {
                    None
                };
                push_marked(&mut dirty_things, conflict, path);
                i = i + 1;
            }
            proof {
                assert(entries.deep_view().take(entries.len() as int) =~= entries.deep_view());
            }
        },
        Err(err) => {
            dirty_things.push(String::from_str("statuses err: ").concat(err.as_str()));
        },
    }
    if dirty_things.len() > 0 {
        Some(dirty_things)
    } else {
        None
    }
}

/// How a file differs between the local tree and what was fetched.
#[derive(Debug, Clone, Copy, PartialEq, Eq, Structural)]
pub enum Delta {
    Unmodified,
    Added,
    Deleted,
    Modified,
    Renamed,
    Copied,
    Ignored,
    Untracked,
    Typechange,
    Unreadable,
    Conflicted,
}

/// The line that one difference adds to the report of an update.
pub open spec fn delta_text(delta: Delta, old_file: Seq<char>, new_file: Seq<char>) -> Seq<char> {
    match delta {
        Delta::Unmodified => Seq::empty(),
        Delta::Added => "+: "@ + new_file,
        Delta::Deleted => "-: "@ + old_file,
        Delta::Modified => "Δ: "@ + new_file,
        Delta::Renamed => "→: \""@ + old_file + "\" -> \""@ + new_file + "\""@,
        Delta::Copied => "cpy: \""@ + old_file + "\" -> \""@ + new_file + "\""@,
        Delta::Ignored => "ign: "@ + new_file,
        Delta::Untracked => "nochg: "@ + new_file,
        Delta::Typechange => "chgtype: "@ + new_file,
        Delta::Unreadable => "unreadable: "@ + new_file,
        Delta::Conflicted => "cflct: "@ + new_file,
    }
}

/// Words one difference for the report of an update.
pub fn delta_line(delta: Delta, old_file: &str, new_file: &str) -> (r: String)
    ensures
        r@ == delta_text(delta, old_file@, new_file@),
{
    match delta {
        Delta::Unmodified => String::new(),
        Delta::Added => String::from_str("+: ").concat(new_file),
        Delta::Deleted => String::from_str("-: ").concat(old_file),
        Delta::Modified => String::from_str("Δ: ").concat(new_file),
        Delta::Renamed => String::from_str("→: \"").concat(old_file).concat("\" -> \"").concat(
            new_file,
        ).concat("\""),
        Delta::Copied => String::from_str("cpy: \"").concat(old_file).concat("\" -> \"").concat(
            new_file,
        ).concat("\""),
        Delta::Ignored => String::from_str("ign: ").concat(new_file),
        Delta::Untracked => String::from_str("nochg: ").concat(new_file),
        Delta::Typechange => String::from_str("chgtype: ").concat(new_file),
        Delta::Unreadable => String::from_str("unreadable: ").concat(new_file),
        Delta::Conflicted => String::from_str("cflct: ").concat(new_file),
    }
}

} // verus!
