use renolock::cmd::{
    batch_generate_renovate_settings, batch_get_lock, default_renovate_id, generate_renovate,
    get_lock, lock, read_git_dirs, LockOutcome,
};
use renolock::entry::Entry;
use renolock::git::{Git, ResolveError};

fn pairs(ps: &[(&str, &str)]) -> Vec<(String, String)> {
    ps.iter().map(|(a, b)| (a.to_string(), b.to_string())).collect()
}

fn tags(ts: &[&str]) -> Vec<String> {
    ts.iter().map(|t| t.to_string()).collect()
}

fn lines(ls: &[&str]) -> Vec<String> {
    ls.iter().map(|l| l.to_string()).collect()
}

fn repo(dir: &str) -> Git {
    Git {
        dir: dir.to_string(),
        valid: true,
        fetch_ok: true,
        toplevel_dir: Some(dir.to_string()),
        current_commit: Some("c0".to_string()),
        remote_url: Some("https://github.com/owner/repo.git".to_string()),
        exact_tags: pairs(&[("c0", "v1")]),
        floor_tags: Vec::new(),
        tag_commits: pairs(&[("v1", "c0")]),
        tags_asc: tags(&["v1"]),
        checkout_ok: true,
    }
}

#[test]
fn basename_of_plain_and_trailing_slash_paths() {
    assert_eq!(default_renovate_id("/repos/app").unwrap(), "app".to_string());
    assert_eq!(default_renovate_id("/repos/app//").unwrap(), "app".to_string());
    assert_eq!(default_renovate_id("app").unwrap(), "app".to_string());
}

#[test]
fn basename_skips_trailing_current_directory_components() {
    assert_eq!(default_renovate_id("/usr/bin/.").unwrap(), "bin".to_string());
    assert_eq!(default_renovate_id("bin/./").unwrap(), "bin".to_string());
    assert_eq!(default_renovate_id("a/./.").unwrap(), "a".to_string());
}

#[test]
fn basename_fails_on_root_and_relative_markers() {
    assert!(matches!(
        default_renovate_id("/"),
        Err(ResolveError::NoBasename(_))
    ));
    assert!(matches!(
        default_renovate_id(""),
        Err(ResolveError::NoBasename(_))
    ));
    assert!(matches!(
        default_renovate_id("."),
        Err(ResolveError::NoBasename(_))
    ));
    assert!(matches!(
        default_renovate_id("./"),
        Err(ResolveError::NoBasename(_))
    ));
    assert!(matches!(
        default_renovate_id(".."),
        Err(ResolveError::NoBasename(_))
    ));
    assert!(matches!(
        default_renovate_id("/a/.."),
        Err(ResolveError::NoBasename(_))
    ));
}

#[test]
fn generate_builds_the_entry_from_the_repository() {
    let g = repo("/repos/app");
    let e = generate_renovate(&g, "app", None).unwrap();
    assert_eq!(
        e,
        Entry::new(
            "v1".to_string(),
            "github-tags".to_string(),
            "owner/repo".to_string(),
            "app".to_string()
        )
    );
}

#[test]
fn generate_uses_the_commit_override() {
    let mut g = repo("/repos/app");
    g.exact_tags = pairs(&[("c0", "v1"), ("c9", "v9")]);
    g.tags_asc = tags(&["v1", "v9"]);
    let e = generate_renovate(&g, "app", Some("c9".to_string())).unwrap();
    assert_eq!(e.get_value(), "v9".to_string());
}

#[test]
fn generate_rejects_an_invalid_repository() {
    let mut g = repo("/repos/app");
    g.valid = false;
    assert!(matches!(
        generate_renovate(&g, "app", None),
        Err(ResolveError::NotARepository)
    ));
}

#[test]
fn generate_surfaces_a_failing_fetch() {
    let mut g = repo("/repos/app");
    g.fetch_ok = false;
    assert!(matches!(
        generate_renovate(&g, "app", None),
        Err(ResolveError::Command(_))
    ));
}

#[test]
fn lock_resolves_and_emits_the_commit() {
    let g = repo("/repos/app");
    let e = Entry::parse("straight=app depName=owner/repo datasource=github-tags value=v1")
        .unwrap();
    match lock(&g, &e, false) {
        LockOutcome::Done(c) => assert_eq!(c, "c0".to_string()),
        other => panic!("expected Done, got {:?}", other),
    }
}

#[test]
fn lock_reports_a_failing_checkout_after_emitting() {
    let mut g = repo("/repos/app");
    g.checkout_ok = false;
    let e = Entry::parse("straight=app depName=owner/repo datasource=github-tags value=v1")
        .unwrap();
    match lock(&g, &e, true) {
        LockOutcome::CheckoutFailed(c, _) => assert_eq!(c, "c0".to_string()),
        other => panic!("expected CheckoutFailed, got {:?}", other),
    }
    match lock(&g, &e, false) {
        LockOutcome::Done(c) => assert_eq!(c, "c0".to_string()),
        other => panic!("expected Done, got {:?}", other),
    }
}

#[test]
fn lock_fails_on_an_unknown_tag_and_names_it() {
    let g = repo("/repos/app");
    let e = Entry::parse("straight=app depName=owner/repo datasource=github-tags value=v9")
        .unwrap();
    match lock(&g, &e, false) {
        LockOutcome::Failed(ResolveError::CommitForTag(tag, _)) => {
            assert_eq!(tag, "v9".to_string())
        },
        other => panic!("expected CommitForTag failure, got {:?}", other),
    }
}

#[test]
fn get_lock_finds_the_entry_by_id() {
    let g = repo("/repos/app");
    let ls = lines(&[
        "straight=other depName=o/x datasource=github-tags value=v9",
        "straight=app depName=owner/repo datasource=github-tags value=v1",
    ]);
    match get_lock(&g, "app", &ls, false) {
        LockOutcome::Done(c) => assert_eq!(c, "c0".to_string()),
        other => panic!("expected Done, got {:?}", other),
    }
}

#[test]
fn get_lock_without_an_entry_is_a_missing_entry() {
    let g = repo("/repos/app");
    let ls = lines(&["straight=other depName=o/x datasource=github-tags value=v9"]);
    match get_lock(&g, "app", &ls, false) {
        LockOutcome::Failed(ResolveError::MissingEntry(id)) => {
            assert_eq!(id, "app".to_string())
        },
        other => panic!("expected MissingEntry, got {:?}", other),
    }
}

#[test]
fn get_lock_stops_on_a_malformed_line() {
    let g = repo("/repos/app");
    let ls = lines(&[
        "not a lock line",
        "straight=app depName=owner/repo datasource=github-tags value=v1",
    ]);
    match get_lock(&g, "app", &ls, false) {
        LockOutcome::Failed(ResolveError::Parse(pe)) => {
            assert_eq!(pe.0, "not a lock line".to_string())
        },
        other => panic!("expected Parse failure, got {:?}", other),
    }
}

#[test]
fn discovery_keeps_only_valid_toplevel_directories() {
    let mut nested = repo("/repos/b/sub");
    nested.toplevel_dir = Some("/repos/b".to_string());
    let mut invalid = repo("/repos/c");
    invalid.valid = false;
    let candidates = vec![repo("/repos/a"), nested, invalid, repo("/repos/d")];
    let dirs = read_git_dirs(&candidates);
    assert_eq!(dirs, vec![0usize, 3usize]);
}

#[test]
fn batch_generate_fail_fast_stops_at_the_second_repository() {
    let mut failing = repo("/repos/b");
    failing.fetch_ok = false;
    let candidates = vec![repo("/repos/a"), failing, repo("/repos/c")];
    let r = batch_generate_renovate_settings(&candidates, true);
    assert_eq!(
        r.outputs,
        vec!["straight=a depName=owner/repo datasource=github-tags value=v1".to_string()]
    );
    assert_eq!(r.failures.len(), 0);
    assert!(matches!(r.aborted, Some(ResolveError::Command(_))));
}

#[test]
fn batch_generate_continue_processes_the_remaining_repositories() {
    let mut failing = repo("/repos/b");
    failing.fetch_ok = false;
    let candidates = vec![repo("/repos/a"), failing, repo("/repos/c")];
    let r = batch_generate_renovate_settings(&candidates, false);
    assert_eq!(
        r.outputs,
        vec![
            "straight=a depName=owner/repo datasource=github-tags value=v1".to_string(),
            "straight=c depName=owner/repo datasource=github-tags value=v1".to_string(),
        ]
    );
    assert_eq!(r.failures.len(), 1);
    assert!(matches!(r.failures[0], ResolveError::Command(_)));
    assert!(r.aborted.is_none());
}

#[test]
fn batch_generate_skips_undiscovered_candidates() {
    let mut invalid = repo("/repos/b");
    invalid.valid = false;
    let candidates = vec![repo("/repos/a"), invalid];
    let r = batch_generate_renovate_settings(&candidates, true);
    assert_eq!(r.outputs.len(), 1);
    assert_eq!(r.failures.len(), 0);
    assert!(r.aborted.is_none());
}

#[test]
fn batch_lock_resolves_each_discovered_repository() {
    let candidates = vec![repo("/repos/a"), repo("/repos/b")];
    let ls = lines(&[
        "straight=a depName=owner/repo datasource=github-tags value=v1",
        "straight=b depName=owner/repo datasource=github-tags value=v1",
    ]);
    let r = batch_get_lock(&candidates, &ls, true, false);
    assert_eq!(r.outputs, vec!["c0".to_string(), "c0".to_string()]);
    assert_eq!(r.failures.len(), 0);
    assert!(r.aborted.is_none());
}

#[test]
fn batch_lock_skips_a_repository_without_an_entry() {
    let candidates = vec![repo("/repos/a")];
    let ls = lines(&["straight=other depName=o/x datasource=github-tags value=v1"]);
    let r = batch_get_lock(&candidates, &ls, true, false);
    assert_eq!(r.outputs.len(), 0);
    assert_eq!(r.failures.len(), 0);
    assert!(r.aborted.is_none());
}

#[test]
fn batch_lock_duplicate_id_resolves_to_the_later_line() {
    let mut g = repo("/repos/a");
    g.tag_commits = pairs(&[("v1", "c1"), ("v2", "c2")]);
    let candidates = vec![g];
    let ls = lines(&[
        "straight=a depName=owner/repo datasource=github-tags value=v1",
        "straight=a depName=owner/repo datasource=github-tags value=v2",
    ]);
    let r = batch_get_lock(&candidates, &ls, true, false);
    assert_eq!(r.outputs, vec!["c2".to_string()]);
}

#[test]
fn batch_lock_fail_fast_aborts_on_a_malformed_line() {
    let candidates = vec![repo("/repos/a")];
    let ls = lines(&[
        "garbage",
        "straight=a depName=owner/repo datasource=github-tags value=v1",
    ]);
    let r = batch_get_lock(&candidates, &ls, true, false);
    assert_eq!(r.outputs.len(), 0);
    assert!(matches!(r.aborted, Some(ResolveError::Parse(_))));
}

#[test]
fn batch_lock_continue_skips_a_malformed_line() {
    let candidates = vec![repo("/repos/a")];
    let ls = lines(&[
        "garbage",
        "straight=a depName=owner/repo datasource=github-tags value=v1",
    ]);
    let r = batch_get_lock(&candidates, &ls, false, false);
    assert_eq!(r.outputs, vec!["c0".to_string()]);
    assert_eq!(r.failures.len(), 1);
    assert!(matches!(r.failures[0], ResolveError::Parse(_)));
    assert!(r.aborted.is_none());
}
