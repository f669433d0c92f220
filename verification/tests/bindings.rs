use sshwarden::bindings::{quick_validate_host_pattern, validate_host_pattern, HostBindingsFile, HostPatternError};

#[test]
fn accepts_hostname_ipv4_ipv6_and_glob() {
    validate_host_pattern("github.com").unwrap();
    validate_host_pattern("192.168.1.10").unwrap();
    validate_host_pattern("2001:db8::1").unwrap();
    validate_host_pattern("*.prod.example.com").unwrap();
    validate_host_pattern("10.0.*.*").unwrap();
    validate_host_pattern("bastion?.corp").unwrap();
    validate_host_pattern("!badhost.example").unwrap();
}

#[test]
fn rejects_empty_or_whitespace() {
    assert!(validate_host_pattern("").is_err());
    assert!(validate_host_pattern("   ").is_err());
    assert!(validate_host_pattern("foo bar").is_err());
    assert!(validate_host_pattern("foo\tbar").is_err());
}

#[test]
fn rejects_unsafe_characters() {
    assert!(validate_host_pattern("foo\"bar").is_err());
    assert!(validate_host_pattern("foo#bar").is_err());
    assert!(validate_host_pattern("foo\\bar").is_err());
    assert!(validate_host_pattern("foo\x01bar").is_err());
}

#[test]
fn set_hosts_dedupes_case_insensitively() {
    let mut file = HostBindingsFile::default();
    file.set_hosts(
        "id-1",
        vec!["GitHub.com".into(), "github.com".into(), "  github.com  ".into()],
    )
    .unwrap();
    let entry = file.bindings.get("id-1").unwrap();
    assert_eq!(entry.hosts.len(), 1);
    assert_eq!(entry.hosts[0], "GitHub.com");
}

#[test]
fn set_hosts_empty_removes_entry() {
    let mut file = HostBindingsFile::default();
    file.set_hosts("id-1", vec!["github.com".into()]).unwrap();
    assert!(file.bindings.contains_key("id-1"));
    file.set_hosts("id-1", vec![]).unwrap();
    assert!(!file.bindings.contains_key("id-1"));
}

#[test]
fn add_and_remove_host() {
    let mut file = HostBindingsFile::default();
    file.add_host("id-1", "github.com").unwrap();
    file.add_host("id-1", "github.com").unwrap();
    file.add_host("id-1", "*.example.com").unwrap();
    assert_eq!(file.bindings.get("id-1").unwrap().hosts.len(), 2);

    assert!(file.remove_host("id-1", "GITHUB.COM"));
    assert_eq!(file.bindings.get("id-1").unwrap().hosts.len(), 1);

    assert!(file.remove_host("id-1", "*.example.com"));
    assert!(!file.bindings.contains_key("id-1"));

    assert!(!file.remove_host("id-1", "nope"));
}

#[test]
fn prune_orphans_drops_unknown_keys() {
    let mut file = HostBindingsFile::default();
    file.add_host("id-1", "a.com").unwrap();
    file.add_host("id-2", "b.com").unwrap();
    file.add_host("id-3", "c.com").unwrap();

    let pruned = file.prune_orphans(&["id-1", "id-3"]);
    assert_eq!(pruned, 1);
    assert!(file.bindings.contains_key("id-1"));
    assert!(!file.bindings.contains_key("id-2"));
    assert!(file.bindings.contains_key("id-3"));
}

#[test]
fn clear_key_removes_entry() {
    let mut file = HostBindingsFile::default();
    file.add_host("id-1", "a.com").unwrap();
    assert!(file.clear_key("id-1"));
    assert!(!file.clear_key("id-1"));
}

#[test]
fn rejects_invalid_pattern_in_set_hosts() {
    let mut file = HostBindingsFile::default();
    let err = file.set_hosts("id-1", vec!["bad host".into()]);
    assert!(err.is_err());
    assert!(!file.bindings.contains_key("id-1"));
}

#[test]
fn host_pattern_errors_name_their_cause() {
    assert_eq!(validate_host_pattern("  "), Err(HostPatternError::Empty));
    assert_eq!(validate_host_pattern("a b"), Err(HostPatternError::Whitespace));
    assert_eq!(validate_host_pattern("a\x7fb"), Err(HostPatternError::ControlChar));
    assert_eq!(validate_host_pattern("a'b"), Err(HostPatternError::UnsafeChar));
    assert_eq!(HostPatternError::Empty.message(), "Host pattern is empty");
}

#[test]
fn set_hosts_trims_and_keeps_first_spelling() {
    let mut file = HostBindingsFile::default();
    file.set_hosts_at("id-9", vec![" b.com ".into(), "A.com".into(), "a.COM".into()], 77)
        .unwrap();
    let entry = file.bindings.get("id-9").unwrap();
    assert_eq!(entry.hosts, vec!["b.com".to_string(), "A.com".to_string()]);
    assert_eq!(entry.updated_at, 77);
}

#[test]
fn add_host_twice_keeps_one_pattern() {
    let mut file = HostBindingsFile::default();
    file.add_host_at("id-1", "Example.org", 5).unwrap();
    file.add_host_at("id-1", "example.ORG", 6).unwrap();
    let entry = file.bindings.get("id-1").unwrap();
    assert_eq!(entry.hosts, vec!["Example.org".to_string()]);
    assert_eq!(entry.updated_at, 5);
}

#[test]
fn remove_host_removes_every_spelling() {
    let mut file = HostBindingsFile::default();
    file.set_hosts_at("id-1", vec!["a.com".into(), "b.com".into()], 1).unwrap();
    assert!(file.remove_host_at("id-1", "A.COM", 2));
    assert!(!file.remove_host_at("id-1", " b.com", 3));
    assert_eq!(file.bindings.get("id-1").unwrap().hosts, vec!["b.com".to_string()]);
}

#[test]
fn dialog_checks_patterns_with_short_messages() {
    assert_eq!(quick_validate_host_pattern(" *.prod.example.com "), Ok(()));
    assert_eq!(quick_validate_host_pattern("  "), Err("Host pattern is empty"));
    assert_eq!(quick_validate_host_pattern("a b"), Err("Host pattern must not contain whitespace"));
    assert_eq!(quick_validate_host_pattern("a#b"), Err("Host pattern contains a character unsafe in ssh_config"));
}

#[test]
fn bound_ids_come_out_sorted() {
    let mut file = HostBindingsFile::default();
    file.add_host_at("id-b", "b.com", 1).unwrap();
    file.add_host_at("id-a", "a.com", 1).unwrap();
    file.add_host_at("Id-c", "c.com", 1).unwrap();
    file.add_host_at("id-ab", "d.com", 1).unwrap();
    assert_eq!(
        file.bindings.sorted_ids(),
        vec!["Id-c".to_string(), "id-a".to_string(), "id-ab".to_string(), "id-b".to_string()]
    );
}
