use herdr::git_refresh::{
    deduplicate_git_refresh_items, git_refresh_demand, pane_cwd_updates, pane_title_git_demand, sync_pane_cwds,
    workspace_git_refresh_items, GitCacheSlot, GitRefreshInputs, GitRefreshIntervals,
    GitRefreshScheduler, GitStatusRefreshDemand, PaneCwdObservation, TerminalCwd, RefreshPlan, RefreshTick,
    SpaceSidebarToken, WorkspaceGitRefreshItem, WorkspaceGitSource, assemble_git_refresh_output,
    WorkspaceGitRefreshJob, WorkspaceGitRefreshResult, WorkspaceGitRefreshTarget,
};
use herdr::pane_title::parse;

const INTERVALS: GitRefreshIntervals =
    GitRefreshIntervals { remote_status_ms: 30_000, repo_discovery_ms: 300_000 };

fn workspace(id: &str, identity: &str) -> WorkspaceGitSource {
    WorkspaceGitSource {
        workspace_id: id.into(),
        identity_cwd: Some(identity.into()),
        cached_identity_cwd: String::new(),
        cached_git_status_key: String::new(),
        pane_repos: Vec::new(),
    }
}

fn inputs(demand: GitStatusRefreshDemand, title_empty: bool) -> GitRefreshInputs {
    GitRefreshInputs { no_workspaces: false, demand, title_empty }
}

#[test]
fn git_refresh_item_collection_reuses_matching_cached_key() {
    let mut ws = workspace("test", "/repo/deep/nested");
    ws.cached_identity_cwd = "/repo/deep/nested".into();
    ws.cached_git_status_key = "/repo".into();

    let items = workspace_git_refresh_items(&[ws], &[], false);

    assert_eq!(items.len(), 1);
    assert_eq!(items[0].cache_key_hint.as_deref(), Some("/repo"));
}

#[test]
fn periodic_repo_discovery_ignores_cached_key_hints() {
    let mut ws = workspace("test", "/repo/deep/nested");
    ws.cached_identity_cwd = "/repo/deep/nested".into();
    ws.cached_git_status_key = "/repo".into();

    let items = workspace_git_refresh_items(&[ws], &[], true);

    assert_eq!(items.len(), 1);
    assert_eq!(items[0].cache_key_hint, None);
    let cache_key = items[0].resolved_identity_cwd.clone();
    let cache = vec![GitCacheSlot { key: cache_key.clone(), fingerprinted: false }];
    let jobs = deduplicate_git_refresh_items(items, vec![Some(cache_key)], &cache);
    assert_eq!(jobs.len(), 1);
    assert_eq!(jobs[0].cached, None);
}

#[test]
fn git_refresh_demand_matches_sidebar_rows() {
    let cases = [
        (SpaceSidebarToken::Workspace, GitStatusRefreshDemand::default()),
        (
            SpaceSidebarToken::Branch,
            GitStatusRefreshDemand { branch: true, ahead_behind: false, working_tree: false },
        ),
        (
            SpaceSidebarToken::GitStatus,
            GitStatusRefreshDemand { branch: false, ahead_behind: true, working_tree: false },
        ),
    ];

    for (token, expected) in cases {
        let demand = git_refresh_demand(&[vec![token]], &[]);
        assert_eq!(demand, expected, "token: {token:?}");
        let scheduler = GitRefreshScheduler::new(0);
        assert_eq!(
            scheduler.git_refresh_deadline(inputs(demand, true), INTERVALS).is_some(),
            !expected.is_empty(),
            "token: {token:?}"
        );
    }
}

#[test]
fn unnamed_linked_worktree_does_not_force_periodic_branch_refresh() {
    let demand = git_refresh_demand(&[vec![SpaceSidebarToken::Workspace]], &[]);
    let scheduler = GitRefreshScheduler::new(0);
    assert_eq!(scheduler.git_refresh_deadline(inputs(demand, true), INTERVALS), None);
}

#[test]
fn custom_named_linked_worktree_does_not_require_branch_refresh() {
    let demand = git_refresh_demand(&[vec![SpaceSidebarToken::Workspace]], &[]);
    assert!(demand.is_empty());
    let scheduler = GitRefreshScheduler::new(0);
    assert_eq!(scheduler.git_refresh_deadline(inputs(demand, true), INTERVALS), None);
}

#[test]
fn git_refresh_due_request_survives_in_flight_refresh() {
    let now = 100_000;
    let mut scheduler = GitRefreshScheduler::new(0);
    scheduler.git_refresh_in_flight = true;
    let mut cache = Vec::new();

    scheduler.mark_git_status_refresh_due(&mut cache, now, INTERVALS);
    assert!(scheduler.git_refresh_due_after_in_flight);

    scheduler.finish_refresh(&mut cache, now, INTERVALS);
    assert!(!scheduler.git_refresh_in_flight);
    assert!(!scheduler.git_refresh_due_after_in_flight);
    let demand = GitStatusRefreshDemand { branch: true, ahead_behind: false, working_tree: false };
    let no_workspaces = GitRefreshInputs { no_workspaces: true, demand, title_empty: true };
    assert_eq!(scheduler.git_refresh_deadline(no_workspaces, INTERVALS), None);

    let deadline = scheduler
        .git_refresh_deadline(inputs(demand, true), INTERVALS)
        .expect("refresh should be due once a workspace exists");
    assert!(deadline <= now);
}

#[test]
fn git_refresh_demand_includes_pane_title_fields() {
    let cases = [
        ("$dir $process", GitStatusRefreshDemand::default()),
        ("$branch", GitStatusRefreshDemand { branch: true, ahead_behind: false, working_tree: false }),
        (
            "$dir( $git_status)",
            GitStatusRefreshDemand { branch: false, ahead_behind: false, working_tree: true },
        ),
    ];
    for (format, expected) in cases {
        let title = parse(format).expect("parse format");
        let demand = git_refresh_demand(&[vec![SpaceSidebarToken::Workspace]], &title);
        assert_eq!(demand, expected, "format: {format}");
        // A cwd-tracking title keeps the periodic tick alive even without git.
        let scheduler = GitRefreshScheduler::new(0);
        assert!(
            scheduler.git_refresh_deadline(inputs(demand, false), INTERVALS).is_some(),
            "format: {format}"
        );
    }
}

fn terminal(id: &str, cwd: &str) -> TerminalCwd {
    TerminalCwd { terminal_id: id.into(), cwd: cwd.into() }
}

fn pane(id: &str, cwd: Option<&str>) -> PaneCwdObservation {
    PaneCwdObservation { terminal_id: id.into(), live_cwd: cwd.map(str::to_owned) }
}

#[test]
fn sync_pane_cwds_is_noop_when_runtime_cwd_matches_cached() {
    // The pane reports the cached cwd itself: nothing changes and the
    // session is not dirtied.
    let mut terminals = vec![terminal("term_1", "/home/user")];
    let mut session_dirty = false;
    let observed = [pane("term_1", Some("/home/user"))];
    assert!(!sync_pane_cwds(&mut terminals, &mut session_dirty, &observed));
    assert!(!session_dirty);
    assert_eq!(terminals, vec![terminal("term_1", "/home/user")]);
}

#[test]
fn pane_cwds_move_only_to_new_absolute_paths() {
    let terminals = vec![terminal("a", "/home"), terminal("b", "/home")];
    let observed = [
        pane("a", Some("/srv")),
        pane("b", Some("relative")),
        pane("c", None),
        pane("d", Some("/tmp")),
    ];
    assert_eq!(pane_cwd_updates(&terminals, &observed), vec![("a".to_owned(), "/srv".to_owned())]);
}

#[test]
fn cwds_are_compared_as_paths() {
    let terminals = vec![terminal("a", "/a/b"), terminal("b", "/a/b")];
    let observed = [pane("a", Some("/a//b/")), pane("b", Some("/a/./b"))];
    assert!(pane_cwd_updates(&terminals, &observed).is_empty());
    let observed = [pane("a", Some("/a/b/c")), pane("b", Some("/a/../b"))];
    assert_eq!(pane_cwd_updates(&terminals, &observed).len(), 2);
}

#[test]
fn syncing_moves_cached_cwds_and_dirties_the_session() {
    let mut terminals = vec![terminal("a", "/home"), terminal("b", "/var"), terminal("c", "/opt")];
    let mut session_dirty = false;
    let observed = [pane("a", Some("/srv")), pane("b", Some("/var/")), pane("a", Some("/tmp"))];
    assert!(sync_pane_cwds(&mut terminals, &mut session_dirty, &observed));
    assert!(session_dirty);
    assert_eq!(
        terminals,
        vec![terminal("a", "/tmp"), terminal("b", "/var"), terminal("c", "/opt")]
    );
    // A second pass over the same reports finds nothing left to move.
    let mut again = false;
    let observed = [pane("a", Some("/tmp")), pane("b", Some("/var/"))];
    assert!(!sync_pane_cwds(&mut terminals, &mut again, &observed));
    assert!(!again);
}

#[test]
fn dedup_folds_items_sharing_a_repository() {
    let item = |ws: &str, cwd: &str, hint: Option<&str>| WorkspaceGitRefreshItem {
        workspace_id: ws.into(),
        resolved_identity_cwd: cwd.into(),
        cache_key_hint: hint.map(str::to_owned),
    };
    let items = vec![
        item("one", "/repo/a", Some("/repo")),
        item("two", "/repo/b", Some("/repo")),
        item("three", "/other", None),
        item("four", "/repo/c", None),
    ];
    let discovered = vec![None, None, Some("/other".to_owned()), Some("/repo".to_owned())];
    let cache = vec![
        GitCacheSlot { key: "/other".into(), fingerprinted: true },
        GitCacheSlot { key: "/repo".into(), fingerprinted: true },
    ];
    let jobs = deduplicate_git_refresh_items(items, discovered, &cache);
    assert_eq!(jobs.len(), 2);
    assert_eq!(jobs[0].cache_key, "/repo");
    // The fourth item came without a hint, so the repo job stops trusting
    // the cache.
    assert_eq!(jobs[0].cached, None);
    let targets = jobs[0].targets.iter().map(|t| t.workspace_id.as_str()).collect::<Vec<_>>();
    assert_eq!(targets, vec!["one", "two", "four"]);
    assert_eq!(jobs[1].cache_key, "/other");
    assert_eq!(jobs[1].cached, None);
}

#[test]
fn hinted_items_start_from_the_cached_entry() {
    let items = vec![WorkspaceGitRefreshItem {
        workspace_id: "one".into(),
        resolved_identity_cwd: "/repo/a".into(),
        cache_key_hint: Some("/repo".into()),
    }];
    let cache = vec![
        GitCacheSlot { key: "/x".into(), fingerprinted: true },
        GitCacheSlot { key: "/repo".into(), fingerprinted: true },
    ];
    let jobs = deduplicate_git_refresh_items(items, vec![None], &cache);
    assert_eq!(jobs[0].cached, Some(1));
}

#[test]
fn pane_repos_are_collected_only_for_git_titles() {
    let mut ws = workspace("test", "/plain");
    ws.pane_repos = vec![("/repo/src".into(), "/repo".into())];
    let with_branch = workspace_git_refresh_items(&[ws.clone()], &parse("$branch").unwrap(), false);
    assert!(with_branch.iter().any(|item| item.cache_key_hint.as_deref() == Some("/repo")));
    let with_dir = workspace_git_refresh_items(&[ws], &parse("$dir").unwrap(), false);
    assert!(with_dir.iter().all(|item| item.cache_key_hint.as_deref() != Some("/repo")));
    assert_eq!(pane_title_git_demand(&parse("$ahead_behind").unwrap()).ahead_behind, true);
}

#[test]
fn explicit_refresh_drops_unfingerprinted_cache_entries() {
    let mut scheduler = GitRefreshScheduler::new(0);
    let mut cache = vec![
        GitCacheSlot { key: "/plain".into(), fingerprinted: false },
        GitCacheSlot { key: "/repo".into(), fingerprinted: true },
    ];
    scheduler.request_git_identity_refresh(&mut cache, 50_000, INTERVALS);
    assert_eq!(cache, vec![GitCacheSlot { key: "/repo".into(), fingerprinted: true }]);
    assert!(scheduler.git_identity_refresh_requested);
    assert_eq!(scheduler.last_git_remote_status_refresh, 20_000);
}

#[test]
fn a_due_tick_walks_sync_plan_and_start() {
    let mut scheduler = GitRefreshScheduler::new(0);
    let demand = GitStatusRefreshDemand { branch: false, ahead_behind: true, working_tree: false };
    assert_eq!(scheduler.refresh_tick(10_000, inputs(demand, false), INTERVALS), RefreshTick::NotDue);
    assert_eq!(
        scheduler.refresh_tick(30_000, inputs(demand, false), INTERVALS),
        RefreshTick::Due { sync_pane_cwds: true }
    );
    assert_eq!(
        scheduler.plan_refresh(30_000, demand, INTERVALS),
        RefreshPlan::CollectItems { refresh_repo_discovery: false }
    );
    scheduler.git_identity_refresh_requested = true;
    let started = scheduler.start_refresh(30_000, false, true, demand);
    assert_eq!(
        started,
        Some(GitStatusRefreshDemand { branch: true, ahead_behind: true, working_tree: false })
    );
    assert!(scheduler.git_refresh_in_flight);
    assert!(!scheduler.git_identity_refresh_requested);
    assert_eq!(scheduler.last_git_repo_discovery_refresh, 30_000);
}

#[test]
fn cwd_only_ticks_finish_without_git() {
    let mut scheduler = GitRefreshScheduler::new(0);
    let empty = GitStatusRefreshDemand::default();
    assert_eq!(scheduler.plan_refresh(40_000, empty, INTERVALS), RefreshPlan::Done);
    assert_eq!(scheduler.last_git_remote_status_refresh, 40_000);
    assert!(!scheduler.git_refresh_in_flight);
    assert_eq!(scheduler.start_refresh(45_000, true, false, empty), None);
    assert_eq!(scheduler.last_git_remote_status_refresh, 45_000);
}

#[test]
fn cwd_identity_refresh_runs_once_without_sidebar_git_tokens() {
    let demand = git_refresh_demand(&[vec![SpaceSidebarToken::Workspace]], &[]);
    let mut scheduler = GitRefreshScheduler::new(0);
    let now = 90_000;
    let mut cache = Vec::new();

    scheduler.request_git_identity_refresh(&mut cache, now, INTERVALS);

    assert!(scheduler.git_refresh_deadline(inputs(demand, true), INTERVALS).is_some());
    assert_eq!(
        scheduler.refresh_tick(now, inputs(demand, true), INTERVALS),
        RefreshTick::Due { sync_pane_cwds: false }
    );
    let plan = scheduler.plan_refresh(now, demand, INTERVALS);
    assert_eq!(plan, RefreshPlan::CollectItems { refresh_repo_discovery: true });
    let items = workspace_git_refresh_items(&[workspace("test", "/work")], &[], true);
    let started = scheduler.start_refresh(now, items.is_empty(), true, demand);
    assert!(started.is_some_and(|d| d.branch));
    assert!(scheduler.git_refresh_in_flight);
    assert!(!scheduler.git_identity_refresh_requested);
}

#[test]
fn due_git_refresh_does_not_start_without_sidebar_consumer() {
    let demand = git_refresh_demand(&[vec![SpaceSidebarToken::Workspace]], &[]);
    let now = 90_000;
    let mut scheduler = GitRefreshScheduler::new(0);
    scheduler.last_git_remote_status_refresh = now - INTERVALS.remote_status_ms;

    assert_eq!(scheduler.refresh_tick(now, inputs(demand, true), INTERVALS), RefreshTick::NotDue);
    assert!(!scheduler.git_refresh_in_flight);
}

#[test]
fn cwd_only_pane_title_syncs_cwds_without_starting_git_refresh() {
    let title = parse("$dir").expect("parse format");
    let demand = git_refresh_demand(&[vec![SpaceSidebarToken::Workspace]], &title);
    let now = 90_000;
    let mut scheduler = GitRefreshScheduler::new(0);
    scheduler.last_git_remote_status_refresh = now - INTERVALS.remote_status_ms;

    assert_eq!(
        scheduler.refresh_tick(now, inputs(demand, false), INTERVALS),
        RefreshTick::Due { sync_pane_cwds: true }
    );
    assert_eq!(scheduler.plan_refresh(now, demand, INTERVALS), RefreshPlan::Done);
    assert!(!scheduler.git_refresh_in_flight);
    assert_eq!(scheduler.last_git_remote_status_refresh, now);
}

#[test]
fn git_refresh_item_collection_does_not_discover_uncached_cwd() {
    let cwd = "/tmp/herdr-uncached-cwd";
    let ws = workspace("test", cwd);

    let items = workspace_git_refresh_items(&[ws], &[], false);

    assert_eq!(items.len(), 1);
    assert_eq!(items[0].resolved_identity_cwd, cwd);
    assert_eq!(items[0].cache_key_hint, None);
}

#[test]
fn explicit_git_refresh_invalidates_cached_non_git_results() {
    let mut scheduler = GitRefreshScheduler::new(0);
    let mut cache = vec![GitCacheSlot { key: "/tmp/herdr-git-miss".into(), fingerprinted: false }];

    scheduler.mark_git_status_refresh_due(&mut cache, 10_000, INTERVALS);

    assert!(cache.is_empty());
}

#[test]
fn git_refresh_items_collect_pane_cwd_repo() {
    let mut ws = workspace("test", "/base/plain");
    ws.pane_repos = vec![("/base/repo".into(), "/base/repo".into())];
    let repo_key = "/base/repo";

    let items = workspace_git_refresh_items(&[ws.clone()], &parse("$branch").unwrap(), false);
    assert!(
        items.iter().any(|item| item.cache_key_hint.as_deref() == Some(repo_key)),
        "pane cwd repo should be collected: {items:?}"
    );

    let items = workspace_git_refresh_items(&[ws], &parse("$dir").unwrap(), false);
    assert!(
        items.iter().all(|item| item.cache_key_hint.as_deref() != Some(repo_key)),
        "pane cwd repo should not be collected: {items:?}"
    );
}

#[test]
fn refresh_output_lists_every_target_in_job_order_and_the_produced_cache_entries() {
    let target = |ws: &str, cwd: &str| WorkspaceGitRefreshTarget {
        workspace_id: ws.into(),
        resolved_identity_cwd: cwd.into(),
    };
    let jobs = vec![
        WorkspaceGitRefreshJob {
            cache_key: "/repo".into(),
            cached: Some(0),
            targets: vec![target("w1", "/repo"), target("w2", "/repo/sub")],
        },
        WorkspaceGitRefreshJob { cache_key: "/other".into(), cached: None, targets: vec![target("w3", "/other")] },
    ];
    let out = assemble_git_refresh_output(&jobs, &[false, true]);
    let result = |ws: &str, cwd: &str, key: &str, job: usize| WorkspaceGitRefreshResult {
        workspace_id: ws.into(),
        resolved_identity_cwd: cwd.into(),
        cache_key: key.into(),
        job,
    };
    assert_eq!(
        out.results,
        vec![
            result("w1", "/repo", "/repo", 0),
            result("w2", "/repo/sub", "/repo", 0),
            result("w3", "/other", "/other", 1),
        ]
    );
    assert_eq!(out.cache_updates, vec![("/other".to_owned(), 1)]);
}

#[test]
fn cached_identity_cwds_and_repository_keys_compare_as_paths() {
    let mut ws = workspace("test", "/repo");
    ws.cached_identity_cwd = "/repo/".into();
    ws.cached_git_status_key = "/repo".into();
    let items = workspace_git_refresh_items(&[ws], &[], false);
    assert_eq!(items[0].cache_key_hint.as_deref(), Some("/repo"));

    let item = |ws: &str, cwd: &str| WorkspaceGitRefreshItem {
        workspace_id: ws.into(),
        resolved_identity_cwd: cwd.into(),
        cache_key_hint: None,
    };
    let items = vec![item("one", "/tmp"), item("two", "/tmp/")];
    let discovered = vec![Some("/tmp".to_owned()), Some("/tmp/".to_owned())];
    let jobs = deduplicate_git_refresh_items(items, discovered, &[]);
    assert_eq!(jobs.len(), 1);
    assert_eq!(jobs[0].targets.len(), 2);

    let hinted = vec![WorkspaceGitRefreshItem {
        workspace_id: "one".into(),
        resolved_identity_cwd: "/repo/a".into(),
        cache_key_hint: Some("/repo/".into()),
    }];
    let cache = vec![GitCacheSlot { key: "/repo".into(), fingerprinted: true }];
    let jobs = deduplicate_git_refresh_items(hinted, vec![None], &cache);
    assert_eq!(jobs[0].cached, Some(0));
}
