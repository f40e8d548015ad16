use upgit::end::{
    detail, group, label, non_repo, other, report_order, sans_report, with_path, Detail, End, Status,
};

fn blnk() -> String {
    String::from("")
}

fn mk_end(status: Status) -> End {
    End { path: String::from(""), status, report: String::from("") }
}

#[test]
fn group_buckets_correctly() {
    let ends = vec![
        mk_end(Status::NonRepo),
        mk_end(Status::NoRemotes),
        mk_end(Status::NoRemotes),
        mk_end(Status::Dirty),
        mk_end(Status::RemoteHeadMismatch),
        mk_end(Status::UpToDate),
        mk_end(Status::Updated),
        mk_end(Status::NoClearOrigin),
        mk_end(Status::BareRepository),
        mk_end(Status::FailedMergeAnalysis),
        mk_end(Status::RevertedConflict),
        mk_end(Status::UnresolvedConflict),
        mk_end(Status::NeedsResolution),
        mk_end(Status::FailedFetch),
        mk_end(Status::WIPOther),
    ];
    let grouped = group(ends.clone());

    assert_eq!(grouped.len(), ends.len() - 1);
    assert_eq!(grouped.get(&Status::NoRemotes).unwrap().len(), 2);
}

#[test]
fn non_repo_is_self() {
    assert_eq!(non_repo(blnk(), blnk()).status, Status::NonRepo)
}

#[test]
fn other_is_self() {
    assert_eq!(other(blnk())(blnk()).status, Status::WIPOther)
}

#[test]
fn sans_report_is_empty() {
    assert_eq!(sans_report(blnk())(Status::NonRepo).report, blnk())
}

#[test]
fn with_path_has_path() {
    let my_path = String::from("/path/to/repo");
    assert_eq!(with_path(my_path.clone())(Status::NonRepo, blnk()).path, my_path)
}

#[test]
fn makers_keep_what_they_are_given() {
    let e = with_path(String::from("/a"))(Status::Dirty, String::from("wt +: x"));
    assert_eq!(e.path, "/a");
    assert_eq!(e.status, Status::Dirty);
    assert_eq!(e.report, "wt +: x");
    let o = other(String::from("/b"))(String::from("oops"));
    assert_eq!(o.path, "/b");
    assert_eq!(o.report, "oops");
    let s = sans_report(String::from("/c"))(Status::NoRemotes);
    assert_eq!(s.path, "/c");
    assert_eq!(s.status, Status::NoRemotes);
    let n = non_repo(String::from("/d"), String::from("r"));
    assert_eq!(n.path, "/d");
    assert_eq!(n.report, "r");
}

#[test]
fn group_of_nothing_is_empty() {
    let grouped = group(vec![]);
    assert_eq!(grouped.len(), 0);
    assert!(grouped.get(&Status::Updated).is_none());
}

#[test]
fn group_keeps_the_order_of_its_members() {
    let ends = vec![
        End { path: String::from("one"), status: Status::Updated, report: blnk() },
        End { path: String::from("two"), status: Status::Dirty, report: blnk() },
        End { path: String::from("three"), status: Status::Updated, report: blnk() },
    ];
    let grouped = group(ends);
    assert_eq!(grouped.len(), 2);
    let updated = grouped.get(&Status::Updated).unwrap();
    assert_eq!(updated.len(), 2);
    assert_eq!(updated[0].path, "one");
    assert_eq!(updated[1].path, "three");
    let dirty = grouped.get(&Status::Dirty).unwrap();
    assert_eq!(dirty.len(), 1);
    assert_eq!(dirty[0].path, "two");
    assert!(grouped.get(&Status::NonRepo).is_none());
}

#[test]
fn report_shows_every_status_once() {
    let order = report_order();
    assert_eq!(order.len(), 14);
    assert_eq!(order[0], Status::NonRepo);
    assert_eq!(order[13], Status::Updated);
    for (i, a) in order.iter().enumerate() {
        for b in order.iter().skip(i + 1) {
            assert_ne!(a, b);
        }
    }
}

#[test]
fn report_headings_and_detail() {
    assert_eq!(label(Status::NonRepo), "Not a repo");
    assert_eq!(label(Status::NoRemotes), "No remote");
    assert_eq!(label(Status::NoClearOrigin), "No clear remote origin");
    assert_eq!(label(Status::BareRepository), "Bare repo, skipped");
    assert_eq!(label(Status::RemoteHeadMismatch), "Remote head mismatch");
    assert_eq!(label(Status::UpToDate), "Up to date");
    assert_eq!(label(Status::FailedMergeAnalysis), "Failed merge analysis");
    assert_eq!(label(Status::RevertedConflict), "Reverted conflict");
    assert_eq!(label(Status::UnresolvedConflict), "Unresolved conflict");
    assert_eq!(label(Status::Dirty), "Dirty, skipped");
    assert_eq!(label(Status::FailedFetch), "Couldn't fetch");
    assert_eq!(label(Status::NeedsResolution), "Needs resolution");
    assert_eq!(label(Status::WIPOther), "Other error");
    assert_eq!(label(Status::Updated), "Updated");
    assert_eq!(detail(Status::NonRepo), Detail::Paths);
    assert_eq!(detail(Status::NoRemotes), Detail::Paths);
    assert_eq!(detail(Status::RemoteHeadMismatch), Detail::Paths);
    assert_eq!(detail(Status::BareRepository), Detail::Count);
    assert_eq!(detail(Status::UpToDate), Detail::Count);
    assert_eq!(detail(Status::FailedMergeAnalysis), Detail::Count);
    assert_eq!(detail(Status::Updated), Detail::Changes);
    assert_eq!(detail(Status::NoClearOrigin), Detail::Reports);
    assert_eq!(detail(Status::Dirty), Detail::Reports);
    assert_eq!(detail(Status::WIPOther), Detail::Reports);
}
