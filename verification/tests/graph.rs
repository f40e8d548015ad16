use upgit::config::Share;
use upgit::git_cred::{CredSet, GitCred, RepoCred};
use upgit::git_url::GitUrl;
use upgit::graph::{
    ensure_node, get_shared_cred, get_shared_pwd_domain, get_shared_pwd_org, get_shared_pwd_repo,
    insert, lookup, Domain, Org, Repo, RepoGraph,
};
use upgit::table::Table;

fn url(host: &str, org: &str, name: &str) -> GitUrl {
    GitUrl {
        domain: String::from(host),
        org: String::from(org),
        repo: String::from(name),
        scheme: String::from("https"),
        username: String::from("me"),
    }
}

fn plain(pass: &str) -> GitCred {
    GitCred::Plain(String::from(pass))
}

fn state(pass: &str) -> RepoCred {
    RepoCred { active: plain(pass), seen: CredSet::new() }
}

fn seen(creds: &[&str]) -> CredSet {
    let mut set = CredSet::new();
    for c in creds {
        set.insert(plain(c));
    }
    set
}

fn path(p: &str) -> String {
    String::from(p)
}

fn sample() -> RepoGraph {
    let mut rg: RepoGraph = Table::new();
    insert(&mut rg, &url("h", "org", "a"), &path("/a1"), state("a1"));
    insert(&mut rg, &url("h", "org", "a"), &path("/a2"), state("a2"));
    insert(&mut rg, &url("h", "org", "b"), &path("/b1"), state("b1"));
    insert(&mut rg, &url("h", "other", "c"), &path("/c1"), state("c1"));
    insert(&mut rg, &url("elsewhere", "org", "a"), &path("/x1"), state("x1"));
    rg
}

#[test]
fn table_starts_empty_and_finds_keys_in_order() {
    let mut t: Table<u8> = Table::new();
    assert_eq!(t.len(), 0);
    assert_eq!(t.position(&path("a")), None);
    t.entries.push((path("a"), 1));
    t.entries.push((path("b"), 2));
    assert_eq!(t.len(), 2);
    assert_eq!(t.position(&path("a")), Some(0));
    assert_eq!(t.position(&path("b")), Some(1));
    assert_eq!(t.position(&path("c")), None);
}

#[test]
fn ensure_node_says_where_the_node_stands() {
    let mut rg: RepoGraph = Table::new();
    assert_eq!(ensure_node(&mut rg, &url("h", "org", "a")), (0, 0, 0));
    assert_eq!(ensure_node(&mut rg, &url("h", "org", "b")), (0, 0, 1));
    assert_eq!(ensure_node(&mut rg, &url("h", "other", "a")), (0, 1, 0));
    assert_eq!(ensure_node(&mut rg, &url("k", "org", "a")), (1, 0, 0));
    assert_eq!(ensure_node(&mut rg, &url("h", "org", "b")), (0, 0, 1));
    assert_eq!(rg.len(), 2);
    assert_eq!(rg.entries[0].0, "https://me@h");
    assert_eq!(rg.entries[0].1.len(), 2);
    assert_eq!(rg.entries[0].1.entries[0].1.len(), 2);
    assert_eq!(rg.entries[0].1.entries[0].1.entries[1].0, "b");
    assert_eq!(rg.entries[0].1.entries[0].1.entries[1].1.len(), 0);
}

#[test]
fn insert_files_and_replaces() {
    let mut rg = sample();
    let a = url("h", "org", "a");
    assert_eq!(lookup(&rg, &a, &path("/a1")).unwrap().active, plain("a1"));
    assert_eq!(lookup(&rg, &a, &path("/a2")).unwrap().active, plain("a2"));
    assert!(lookup(&rg, &a, &path("/a3")).is_none());
    assert!(lookup(&rg, &url("h", "org", "zz"), &path("/a1")).is_none());
    assert!(lookup(&rg, &url("h", "zz", "a"), &path("/a1")).is_none());
    assert!(lookup(&rg, &url("zz", "org", "a"), &path("/a1")).is_none());
    insert(&mut rg, &a, &path("/a1"), RepoCred { active: plain("new"), seen: seen(&["a1"]) });
    let leaf = lookup(&rg, &a, &path("/a1")).unwrap();
    assert_eq!(leaf.active, plain("new"));
    assert!(leaf.seen.contains(&plain("a1")));
    assert_eq!(lookup(&rg, &a, &path("/a2")).unwrap().active, plain("a2"));
    assert_eq!(rg.entries[0].1.entries[0].1.entries[0].1.len(), 2);
}

#[test]
fn repository_search_skips_own_path_and_tried_credentials() {
    let rg = sample();
    let repo: &Repo = &rg.entries[0].1.entries[0].1.entries[0].1;
    assert_eq!(get_shared_pwd_repo(repo, &path("/new"), &seen(&[])), Some(plain("a1")));
    assert_eq!(get_shared_pwd_repo(repo, &path("/a1"), &seen(&[])), Some(plain("a2")));
    assert_eq!(get_shared_pwd_repo(repo, &path("/new"), &seen(&["a1"])), Some(plain("a2")));
    assert_eq!(get_shared_pwd_repo(repo, &path("/a2"), &seen(&["a1"])), None);
    assert_eq!(get_shared_pwd_repo(repo, &path("/new"), &seen(&["a1", "a2"])), None);
    let empty: Repo = Table::new();
    assert_eq!(get_shared_pwd_repo(&empty, &path("/new"), &seen(&[])), None);
}

#[test]
fn organization_and_identity_search_go_in_order() {
    let rg = sample();
    let domain: &Domain = &rg.entries[0].1;
    let org: &Org = &domain.entries[0].1;
    assert_eq!(get_shared_pwd_org(org, &path("/new"), &seen(&[])), Some(plain("a1")));
    assert_eq!(get_shared_pwd_org(org, &path("/new"), &seen(&["a1", "a2"])), Some(plain("b1")));
    assert_eq!(get_shared_pwd_org(org, &path("/b1"), &seen(&["a1", "a2"])), None);
    assert_eq!(
        get_shared_pwd_domain(domain, &path("/new"), &seen(&["a1", "a2", "b1"])),
        Some(plain("c1"))
    );
    assert_eq!(get_shared_pwd_domain(domain, &path("/new"), &seen(&["a1", "a2", "b1", "c1"])), None);
}

#[test]
fn shared_credential_by_policy() {
    let rg = sample();
    let b = url("h", "org", "b");
    let own = path("/b1");
    let none = seen(&[]);
    assert_eq!(get_shared_cred(&rg, &Share::Never, &b, &own, &none), None);
    assert_eq!(get_shared_cred(&rg, &Share::Defaults, &b, &own, &none), None);
    assert_eq!(get_shared_cred(&rg, &Share::Duplicate, &b, &own, &none), None);
    assert_eq!(get_shared_cred(&rg, &Share::Org, &b, &own, &none), Some(plain("a1")));
    assert_eq!(get_shared_cred(&rg, &Share::Domain, &b, &own, &none), Some(plain("a1")));
    let tried = seen(&["a1", "a2"]);
    assert_eq!(get_shared_cred(&rg, &Share::Org, &b, &own, &tried), None);
    assert_eq!(get_shared_cred(&rg, &Share::Domain, &b, &own, &tried), Some(plain("c1")));
    let a = url("h", "org", "a");
    assert_eq!(get_shared_cred(&rg, &Share::Duplicate, &a, &path("/a1"), &none), Some(plain("a2")));
    assert_eq!(get_shared_cred(&rg, &Share::Duplicate, &a, &path("/a3"), &none), Some(plain("a1")));
}

#[test]
fn shared_credential_without_nodes() {
    let rg = sample();
    let none = seen(&[]);
    let unknown_repo = url("h", "org", "zz");
    assert_eq!(get_shared_cred(&rg, &Share::Duplicate, &unknown_repo, &path("/z"), &none), None);
    assert_eq!(get_shared_cred(&rg, &Share::Org, &unknown_repo, &path("/z"), &none), Some(plain("a1")));
    let unknown_org = url("h", "zz", "a");
    assert_eq!(get_shared_cred(&rg, &Share::Org, &unknown_org, &path("/z"), &none), None);
    assert_eq!(get_shared_cred(&rg, &Share::Domain, &unknown_org, &path("/z"), &none), Some(plain("a1")));
    let unknown_identity = url("zz", "org", "a");
    assert_eq!(get_shared_cred(&rg, &Share::Domain, &unknown_identity, &path("/z"), &none), None);
    let elsewhere = url("elsewhere", "org", "b");
    assert_eq!(get_shared_cred(&rg, &Share::Domain, &elsewhere, &path("/z"), &none), Some(plain("x1")));
}
