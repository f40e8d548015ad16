use upgit::config::{default_ssh_source, get_share, str_to_share, KeyPath, Share};

#[test]
fn share_words() {
    assert_eq!(str_to_share("none"), Share::Never);
    assert_eq!(str_to_share("default"), Share::Defaults);
    assert_eq!(str_to_share("duplicate"), Share::Duplicate);
    assert_eq!(str_to_share("org"), Share::Org);
    assert_eq!(str_to_share("domain"), Share::Domain);
}

#[test]
fn unknown_share_word_means_defaults() {
    assert_eq!(str_to_share(""), Share::Defaults);
    assert_eq!(str_to_share("None"), Share::Defaults);
    assert_eq!(str_to_share("identity"), Share::Defaults);
}

#[test]
fn share_levels_are_ordered() {
    assert!(Share::Never < Share::Defaults);
    assert!(Share::Defaults < Share::Duplicate);
    assert!(Share::Duplicate < Share::Org);
    assert!(Share::Org < Share::Domain);
    assert_eq!(Share::Never.level(), 0);
    assert_eq!(Share::Domain.level(), 4);
    assert!(Share::Org.at_least(Share::Duplicate));
    assert!(Share::Org.at_least(Share::Org));
    assert!(!Share::Org.at_least(Share::Domain));
    assert!(!Share::Never.at_least(Share::Defaults));
}

#[test]
fn command_line_goes_before_environment() {
    assert_eq!(get_share(Some("org"), Some("domain")), Share::Org);
    assert_eq!(get_share(None, Some("domain")), Share::Domain);
    assert_eq!(get_share(None, None), Share::Defaults);
    assert_eq!(get_share(Some("bogus"), Some("domain")), Share::Defaults);
}

#[test]
fn default_ssh_key_path_sources() {
    assert_eq!(default_ssh_source(None), KeyPath::Unset);
    assert_eq!(default_ssh_source(Some("")), KeyPath::Home);
    assert_eq!(default_ssh_source(Some("/k")), KeyPath::Given(String::from("/k")));
}
