use renolock::git::{Git, ResolveError};

fn pairs(ps: &[(&str, &str)]) -> Vec<(String, String)> {
    ps.iter().map(|(a, b)| (a.to_string(), b.to_string())).collect()
}

fn tags(ts: &[&str]) -> Vec<String> {
    ts.iter().map(|t| t.to_string()).collect()
}

fn repo(dir: &str) -> Git {
    Git {
        dir: dir.to_string(),
        valid: true,
        fetch_ok: true,
        toplevel_dir: Some(dir.to_string()),
        current_commit: Some("c0".to_string()),
        remote_url: Some("https://github.com/owner/repo.git".to_string()),
        exact_tags: Vec::new(),
        floor_tags: Vec::new(),
        tag_commits: Vec::new(),
        tags_asc: Vec::new(),
        checkout_ok: true,
    }
}

#[test]
fn exact_tag_wins_over_other_tags() {
    let mut g = repo("/repos/a");
    g.exact_tags = pairs(&[("commit", "v2")]);
    g.floor_tags = pairs(&[("commit", "v1")]);
    g.tags_asc = tags(&["v1", "v2", "v3"]);
    let got = g.get_same_or_newer_or_latest_tag("commit").unwrap();
    assert_eq!(got, "v2".to_string());
}

#[test]
fn untagged_commit_rounds_forward_to_next_tag() {
    let mut g = repo("/repos/a");
    g.floor_tags = pairs(&[("commit", "v1")]);
    g.tags_asc = tags(&["v1", "v2", "v3"]);
    let got = g.get_same_or_newer_or_latest_tag("commit").unwrap();
    assert_eq!(got, "v2".to_string());
}

#[test]
fn floor_at_tip_falls_back_to_floor_tag() {
    let mut g = repo("/repos/a");
    g.floor_tags = pairs(&[("commit", "v2")]);
    g.tags_asc = tags(&["v1", "v2"]);
    let got = g.get_same_or_newer_or_latest_tag("commit").unwrap();
    assert_eq!(got, "v2".to_string());
}

#[test]
fn floor_tag_absent_from_listing_is_inconsistent() {
    let mut g = repo("/repos/a");
    g.floor_tags = pairs(&[("commit", "v9")]);
    g.tags_asc = tags(&["v1", "v2"]);
    let err = g.get_same_or_newer_or_latest_tag("commit").unwrap_err();
    match err {
        ResolveError::InconsistentTagState(t) => assert_eq!(t, "v9".to_string()),
        other => panic!("expected InconsistentTagState, got {:?}", other),
    }
}

#[test]
fn empty_tag_list_fails_as_command_error() {
    let g = repo("/repos/a");
    let err = g.get_same_or_newer_or_latest_tag("commit").unwrap_err();
    assert!(matches!(err, ResolveError::Command(_)));
}

#[test]
fn duplicate_tag_names_use_first_position() {
    let mut g = repo("/repos/a");
    g.floor_tags = pairs(&[("commit", "v1")]);
    g.tags_asc = tags(&["v1", "v1", "v2"]);
    let got = g.get_same_or_newer_or_latest_tag("commit").unwrap();
    assert_eq!(got, "v1".to_string());
}

#[test]
fn dep_name_from_https_url() {
    let mut g = repo("/repos/a");
    g.remote_url = Some("https://github.com/owner/repo.git".to_string());
    assert_eq!(g.renovate_dep_name().unwrap(), "owner/repo".to_string());
}

#[test]
fn dep_name_from_ssh_url_without_suffix() {
    let mut g = repo("/repos/a");
    g.remote_url = Some("git@github.com:owner/repo".to_string());
    assert_eq!(g.renovate_dep_name().unwrap(), "owner/repo".to_string());
}

#[test]
fn unsupported_remote_is_rejected() {
    let mut g = repo("/repos/a");
    g.remote_url = Some("https://example.com/owner/repo.git".to_string());
    let err = g.renovate_dep_name().unwrap_err();
    match err {
        ResolveError::UnsupportedRemote(u) => {
            assert_eq!(u, "https://example.com/owner/repo.git".to_string())
        },
        other => panic!("expected UnsupportedRemote, got {:?}", other),
    }
    assert!(matches!(
        g.renovate_datasource(),
        Err(ResolveError::UnsupportedRemote(_))
    ));
}

#[test]
fn datasource_is_github_tags_for_both_forms() {
    let mut g = repo("/repos/a");
    assert_eq!(g.renovate_datasource().unwrap(), "github-tags".to_string());
    g.remote_url = Some("git@github.com:owner/repo.git".to_string());
    assert_eq!(g.renovate_datasource().unwrap(), "github-tags".to_string());
}

#[test]
fn source_primitives_answer_the_scripted_state() {
    let mut g = repo("/repos/a");
    g.exact_tags = pairs(&[("c1", "v1")]);
    g.tag_commits = pairs(&[("v1", "c1")]);
    g.tags_asc = tags(&["v1"]);
    assert!(g.is_valid());
    assert!(g.is_toplevel_dir());
    assert_eq!(g.show_toplevel_dir().unwrap(), "/repos/a".to_string());
    assert!(g.fetch().is_ok());
    assert!(g.checkout("c1").is_ok());
    assert_eq!(g.get_commit_from_tag("v1").unwrap(), "c1".to_string());
    assert_eq!(g.get_current_commit().unwrap(), "c0".to_string());
    assert_eq!(g.get_tag_from_commit("c1").unwrap(), "v1".to_string());
    assert!(g.get_tag_from_commit("c2").is_err());
    assert_eq!(g.get_latest_tag("c9").unwrap_err().message, "".to_string());
    assert_eq!(g.list_tags_order_by_creatordate_asc(), vec!["v1".to_string()]);
    assert_eq!(
        g.remote_origin_url().unwrap(),
        "https://github.com/owner/repo.git".to_string()
    );
}

#[test]
fn tag_listing_lines_lose_their_ref_prefix() {
    let listing = vec![
        "refs/tags/v1".to_string(),
        "refs/tags/v2".to_string(),
        "plain".to_string(),
    ];
    let got = renolock::git::tags_from_ref_lines(&listing);
    assert_eq!(
        got,
        vec!["v1".to_string(), "v2".to_string(), "plain".to_string()]
    );
}

#[test]
fn nested_repository_is_not_toplevel() {
    let mut g = repo("/repos/a/sub");
    g.toplevel_dir = Some("/repos/a".to_string());
    assert!(g.is_valid());
    assert!(!g.is_toplevel_dir());
}
