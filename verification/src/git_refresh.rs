//! Scheduling of the periodic git status refresh.
//!
//! The app refreshes each workspace's git status (and, for pane titles, the
//! status of every repository a pane sits in) on a timer. This module holds
//! the decisions: when the next refresh is due, which git facts are
//! demanded, which repositories to ask about, and how requests that share a
//! repository fold into one job. Reading cwds, running git and spawning the
//! worker stay with the caller, which feeds the results back in.
//!
//! Instants are milliseconds on a monotonic clock.

use vstd::prelude::*;

use crate::pane_title::{mentions, references, segments_model, Segment, SegmentModel, TitleField};
use crate::popup::str_equal;
use crate::path::{has_root, is_same_path, path_has_root, same_path};

verus! {

/// Which git facts a refresh must compute.
#[derive(Debug, Clone, Copy, PartialEq, Eq, Default, Structural)]
pub struct GitStatusRefreshDemand {
    pub branch: bool,
    pub ahead_behind: bool,
    pub working_tree: bool,
}

impl GitStatusRefreshDemand {
    /// No fact is demanded.
    pub open spec fn is_empty_spec(self) -> bool {
        !self.branch && !self.ahead_behind && !self.working_tree
    }

    /// No fact is demanded.
    pub fn is_empty(&self) -> (r: bool)
        ensures
            r == self.is_empty_spec(),
    {
        !self.branch && !self.ahead_behind && !self.working_tree
    }
}

/// The sidebar tokens of a workspace row, as far as git demand goes.
#[derive(Debug, Clone, Copy, PartialEq, Eq, Structural)]
pub enum SpaceSidebarToken {
    /// The workspace name.
    Workspace,
    /// The current branch.
    Branch,
    /// The ahead/behind counts.
    GitStatus,
    /// Any other token; it needs no git fact.
    Other,
}

/// The sidebar shows a token of kind `t` somewhere in `rows`.
pub open spec fn rows_show(rows: Seq<Vec<SpaceSidebarToken>>, t: SpaceSidebarToken) -> bool {
    exists|r: int, c: int| 0 <= r < rows.len() && 0 <= c < rows[r]@.len() && #[trigger] rows[r]@[c] == t
}

/// The git facts the pane title format needs: the branch for `$branch`,
/// ahead/behind for `$ahead_behind`, the working tree for `$git_status`.
pub open spec fn title_demand_spec(title: Seq<SegmentModel>) -> GitStatusRefreshDemand {
    GitStatusRefreshDemand {
        branch: mentions(title, TitleField::Branch),
        ahead_behind: mentions(title, TitleField::AheadBehind),
        working_tree: mentions(title, TitleField::GitStatus),
    }
}

/// The git facts the pane title format needs.
pub fn pane_title_git_demand(title: &[Segment]) -> (demand: GitStatusRefreshDemand)
    ensures
        demand == title_demand_spec(segments_model(title@)),
{
    GitStatusRefreshDemand {
        branch: references(title, TitleField::Branch),
        ahead_behind: references(title, TitleField::AheadBehind),
        working_tree: references(title, TitleField::GitStatus),
    }
}

/// All git facts the app needs: the branch when the sidebar shows one,
/// ahead/behind when it shows the git status, and whatever the pane title
/// needs.
pub open spec fn demand_spec(rows: Seq<Vec<SpaceSidebarToken>>, title: Seq<SegmentModel>) -> GitStatusRefreshDemand {
    let t = title_demand_spec(title);
    GitStatusRefreshDemand {
        branch: rows_show(rows, SpaceSidebarToken::Branch) || t.branch,
        ahead_behind: rows_show(rows, SpaceSidebarToken::GitStatus) || t.ahead_behind,
        working_tree: t.working_tree,
    }
}

/// All git facts the sidebar rows and the pane title need.
pub fn git_refresh_demand(sidebar_rows: &[Vec<SpaceSidebarToken>], title: &[Segment]) -> (demand:
    GitStatusRefreshDemand)
    ensures
        demand == demand_spec(sidebar_rows@, segments_model(title@)),
{
    let mut branch = false;
    let mut ahead_behind = false;
    let n = sidebar_rows.len();
    let mut r: usize = 0;
    while r < n
        invariant
            n == sidebar_rows@.len(),
            r <= n,
            branch == exists|i: int, c: int|
                0 <= i < r && 0 <= c < sidebar_rows@[i]@.len() && #[trigger] sidebar_rows@[i]@[c]
                    == SpaceSidebarToken::Branch,
            ahead_behind == exists|i: int, c: int|
                0 <= i < r && 0 <= c < sidebar_rows@[i]@.len() && #[trigger] sidebar_rows@[i]@[c]
                    == SpaceSidebarToken::GitStatus,
        decreases n - r,
    {
        let row = &sidebar_rows[r];
        let m = row.len();
        let mut c: usize = 0;
        let ghost branch0 = branch;
        let ghost ahead0 = ahead_behind;
        while c < m
            invariant
                n == sidebar_rows@.len(),
                r < n,
                row == &sidebar_rows@[r as int],
                m == row@.len(),
                c <= m,
                branch == (branch0 || exists|k: int| 0 <= k < c && #[trigger] row@[k]
                    == SpaceSidebarToken::Branch),
                ahead_behind == (ahead0 || exists|k: int|
                    0 <= k < c && #[trigger] row@[k] == SpaceSidebarToken::GitStatus),
            decreases m - c,
        {
            match row[c] {
                SpaceSidebarToken::Branch => {
                    branch = true;
                },
                SpaceSidebarToken::GitStatus => {
                    ahead_behind = true;
                },
                _ => {},
            }
            c = c + 1;
        }
        proof {
            if branch {
                if !branch0 {
                    let k = choose|k: int| 0 <= k < m && #[trigger] row@[k] == SpaceSidebarToken::Branch;
                    assert(sidebar_rows@[r as int]@[k] == SpaceSidebarToken::Branch);
                }
            } else {
                assert forall|i: int, c: int|
                    0 <= i < r + 1 && 0 <= c < sidebar_rows@[i]@.len() implies #[trigger] sidebar_rows@[i]@[c]
                    != SpaceSidebarToken::Branch by {
                    if i == r {
                        assert(row@[c] != SpaceSidebarToken::Branch);
                    }
                }
            }
            if ahead_behind {
                if !ahead0 {
                    let k = choose|k: int| 0 <= k < m && #[trigger] row@[k] == SpaceSidebarToken::GitStatus;
                    assert(sidebar_rows@[r as int]@[k] == SpaceSidebarToken::GitStatus);
                }
            } else {
                assert forall|i: int, c: int|
                    0 <= i < r + 1 && 0 <= c < sidebar_rows@[i]@.len() implies #[trigger] sidebar_rows@[i]@[c]
                    != SpaceSidebarToken::GitStatus by {
                    if i == r {
                        assert(row@[c] != SpaceSidebarToken::GitStatus);
                    }
                }
            }
        }
        r = r + 1;
    }
    let title_demand = pane_title_git_demand(title);
    GitStatusRefreshDemand {
        branch: branch || title_demand.branch,
        ahead_behind: ahead_behind || title_demand.ahead_behind,
        working_tree: title_demand.working_tree,
    }
}

/// How often the refresh runs, and how often it rediscovers repositories.
#[derive(Debug, Clone, Copy, PartialEq, Eq, Structural)]
pub struct GitRefreshIntervals {
    /// Milliseconds between two remote status refreshes.
    pub remote_status_ms: u64,
    /// Milliseconds between two repository discoveries.
    pub repo_discovery_ms: u64,
}

/// The refresh scheduler's state.
#[derive(Debug, Clone, Copy, PartialEq, Eq, Structural)]
pub struct GitRefreshScheduler {
    /// A refresh worker is running.
    pub git_refresh_in_flight: bool,
    /// A refresh was asked for while one was running.
    pub git_refresh_due_after_in_flight: bool,
    /// The workspace identities must be re-resolved (and branches read).
    pub git_identity_refresh_requested: bool,
    /// When the last remote status refresh counted as done.
    pub last_git_remote_status_refresh: u64,
    /// When repositories were last rediscovered.
    pub last_git_repo_discovery_refresh: u64,
}

/// What the app reads besides the scheduler when deciding on a refresh.
#[derive(Debug, Clone, Copy, PartialEq, Eq, Structural)]
pub struct GitRefreshInputs {
    /// There is no workspace at all.
    pub no_workspaces: bool,
    /// The git facts the sidebar and pane title demand.
    pub demand: GitStatusRefreshDemand,
    /// The pane title format is empty (so no pane cwd needs tracking).
    pub title_empty: bool,
}

/// When the next refresh is due: `interval` after the last one, while no
/// refresh runs, some workspace exists and something wants the refresh (an
/// identity refresh, a git demand, or a pane title that tracks cwds).
pub open spec fn deadline_spec(
    s: GitRefreshScheduler,
    inputs: GitRefreshInputs,
    intervals: GitRefreshIntervals,
) -> Option<int> {
    if !s.git_refresh_in_flight && !inputs.no_workspaces && (s.git_identity_refresh_requested
        || !inputs.demand.is_empty_spec() || !inputs.title_empty) {
        Some(s.last_git_remote_status_refresh + intervals.remote_status_ms)
    } else {
        None
    }
}

/// The deadline fits the clock.
pub open spec fn deadline_fits(s: GitRefreshScheduler, intervals: GitRefreshIntervals) -> bool {
    s.last_git_remote_status_refresh + intervals.remote_status_ms <= u64::MAX
}

/// What the first step of a due refresh asks the app to do.
#[derive(Debug, Clone, Copy, PartialEq, Eq, Structural)]
pub enum RefreshTick {
    /// Nothing is due yet.
    NotDue,
    /// A refresh is due; when `sync_pane_cwds` is set the app first brings
    /// each pane's cached cwd up to date with its live cwd.
    Due { sync_pane_cwds: bool },
}

/// What the second step decides once cwds are in sync.
#[derive(Debug, Clone, Copy, PartialEq, Eq, Structural)]
pub enum RefreshPlan {
    /// Only the cwd tracking was due; the refresh counts as done.
    Done,
    /// Collect the refresh items (rediscovering repositories when set).
    CollectItems { refresh_repo_discovery: bool },
}

/// The clock value one interval before `now`, or `now` when the clock has
/// not run that long.
pub open spec fn interval_before(now: u64, interval: u64) -> u64 {
    if now >= interval {
        (now - interval) as u64
    } else {
        now
    }
}

/// The scheduler after a refresh was marked due at `now`.
pub open spec fn mark_due_spec(s: GitRefreshScheduler, now: u64, intervals: GitRefreshIntervals) -> GitRefreshScheduler {
    if s.git_refresh_in_flight {
        GitRefreshScheduler { git_refresh_due_after_in_flight: true, ..s }
    } else {
        GitRefreshScheduler {
            last_git_remote_status_refresh: interval_before(now, intervals.remote_status_ms),
            git_refresh_due_after_in_flight: false,
            ..s
        }
    }
}

/// The scheduler after the running refresh reported back at `now`.
pub open spec fn finish_spec(s: GitRefreshScheduler, now: u64, intervals: GitRefreshIntervals) -> GitRefreshScheduler {
    let idle = GitRefreshScheduler { git_refresh_in_flight: false, ..s };
    if s.git_refresh_due_after_in_flight {
        mark_due_spec(idle, now, intervals)
    } else {
        idle
    }
}

impl GitRefreshScheduler {
    /// The scheduler before any refresh.
    pub fn new(now: u64) -> (s: Self)
        ensures
            !s.git_refresh_in_flight,
            !s.git_refresh_due_after_in_flight,
            !s.git_identity_refresh_requested,
            s.last_git_remote_status_refresh == now,
            s.last_git_repo_discovery_refresh == now,
    {
        GitRefreshScheduler {
            git_refresh_in_flight: false,
            git_refresh_due_after_in_flight: false,
            git_identity_refresh_requested: false,
            last_git_remote_status_refresh: now,
            last_git_repo_discovery_refresh: now,
        }
    }

    /// When the next refresh is due, per [`deadline_spec`].
    pub fn git_refresh_deadline(&self, inputs: GitRefreshInputs, intervals: GitRefreshIntervals) -> (deadline:
        Option<u64>)
        requires
            deadline_fits(*self, intervals),
        ensures
            match deadline_spec(*self, inputs, intervals) {
                Some(d) => deadline == Some(d as u64),
                None => deadline is None,
            },
    {
        if !self.git_refresh_in_flight && !inputs.no_workspaces && (
        self.git_identity_refresh_requested || !inputs.demand.is_empty() || !inputs.title_empty) {
            Some(self.last_git_remote_status_refresh + intervals.remote_status_ms)
        } else {
            None
        }
    }

    /// Marks the refresh as due now: while one runs, it is remembered for
    /// when that one ends; otherwise the last refresh is moved back by a
    /// full interval (to the clock's start if that is earlier). The cache
    /// drops its entries without a fingerprint.
    pub fn mark_git_status_refresh_due(
        &mut self,
        cache: &mut Vec<GitCacheSlot>,
        now: u64,
        intervals: GitRefreshIntervals,
    )
        ensures
            cache_slots_model(final(cache)@) == fingerprinted(cache_slots_model(old(cache)@)),
            *final(self) == mark_due_spec(*old(self), now, intervals),
    {
        retain_fingerprinted(cache);
        if self.git_refresh_in_flight {
            self.git_refresh_due_after_in_flight = true;
            return;
        }
        self.last_git_remote_status_refresh = if now >= intervals.remote_status_ms {
            now - intervals.remote_status_ms
        } else {
            now
        };
        self.git_refresh_due_after_in_flight = false;
    }

    /// Asks for the workspace identities to be re-resolved, and marks the
    /// refresh as due.
    pub fn request_git_identity_refresh(
        &mut self,
        cache: &mut Vec<GitCacheSlot>,
        now: u64,
        intervals: GitRefreshIntervals,
    )
        ensures
            cache_slots_model(final(cache)@) == fingerprinted(cache_slots_model(old(cache)@)),
            *final(self) == mark_due_spec(
                GitRefreshScheduler { git_identity_refresh_requested: true, ..*old(self) },
                now,
                intervals,
            ),
    {
        self.git_identity_refresh_requested = true;
        self.mark_git_status_refresh_due(cache, now, intervals);
    }

    /// The first step of a timer tick: whether a refresh is due at `now`,
    /// and if so whether pane cwds must be synced first (when the pane
    /// title is in use).
    pub fn refresh_tick(&self, now: u64, inputs: GitRefreshInputs, intervals: GitRefreshIntervals) -> (tick:
        RefreshTick)
        requires
            deadline_fits(*self, intervals),
        ensures
            tick == (match deadline_spec(*self, inputs, intervals) {
                Some(d) => if now < d {
                    RefreshTick::NotDue
                } else {
                    RefreshTick::Due { sync_pane_cwds: !inputs.title_empty }
                },
                None => RefreshTick::NotDue,
            }),
    {
        match self.git_refresh_deadline(inputs, intervals) {
            Some(deadline) => if now < deadline {
                RefreshTick::NotDue
            } else {
                RefreshTick::Due { sync_pane_cwds: !inputs.title_empty }
            },
            None => RefreshTick::NotDue,
        }
    }

    /// The second step, with cwds in sync: with no identity refresh asked
    /// for and no git fact demanded, the refresh is done now; otherwise the
    /// app collects the items, rediscovering repositories on an identity
    /// refresh or when the discovery interval has passed.
    pub fn plan_refresh(
        &mut self,
        now: u64,
        demand: GitStatusRefreshDemand,
        intervals: GitRefreshIntervals,
    ) -> (plan: RefreshPlan)
        ensures
            !old(self).git_identity_refresh_requested && demand.is_empty_spec() ==> plan
                == RefreshPlan::Done && *final(self) == (GitRefreshScheduler {
                last_git_remote_status_refresh: now,
                ..*old(self)
            }),
            old(self).git_identity_refresh_requested || !demand.is_empty_spec() ==> plan
                == (RefreshPlan::CollectItems {
                refresh_repo_discovery: old(self).git_identity_refresh_requested || (if now
                    >= old(self).last_git_repo_discovery_refresh {
                    now - old(self).last_git_repo_discovery_refresh
                } else {
                    0
                }) >= intervals.repo_discovery_ms,
            }) && *final(self) == *old(self),
    {
        if !self.git_identity_refresh_requested && demand.is_empty() {
            self.last_git_remote_status_refresh = now;
            return RefreshPlan::Done;
        }
        let since = now.saturating_sub(self.last_git_repo_discovery_refresh);
        RefreshPlan::CollectItems {
            refresh_repo_discovery: self.git_identity_refresh_requested || since
                >= intervals.repo_discovery_ms,
        }
    }

    /// The last step, with the items collected: with none, the refresh is
    /// done now and the identity request is settled; otherwise a refresh
    /// starts, demanding the branch too on an identity refresh, and the
    /// returned demand is what the worker computes.
    pub fn start_refresh(
        &mut self,
        now: u64,
        items_empty: bool,
        refresh_repo_discovery: bool,
        demand: GitStatusRefreshDemand,
    ) -> (started: Option<GitStatusRefreshDemand>)
        ensures
            items_empty ==> started is None && *final(self) == (GitRefreshScheduler {
                last_git_remote_status_refresh: now,
                git_identity_refresh_requested: false,
                ..*old(self)
            }),
            !items_empty ==> started == Some(
                GitStatusRefreshDemand {
                    branch: demand.branch || old(self).git_identity_refresh_requested,
                    ..demand
                },
            ) && *final(self) == (GitRefreshScheduler {
                git_refresh_in_flight: true,
                git_identity_refresh_requested: false,
                last_git_repo_discovery_refresh: if refresh_repo_discovery {
                    now
                } else {
                    old(self).last_git_repo_discovery_refresh
                },
                ..*old(self)
            }),
    {
        if items_empty {
            self.last_git_remote_status_refresh = now;
            self.git_identity_refresh_requested = false;
            return None;
        }
        self.git_refresh_in_flight = true;
        let mut demand = demand;
        if self.git_identity_refresh_requested {
            demand.branch = true;
        }
        self.git_identity_refresh_requested = false;
        if refresh_repo_discovery {
            self.last_git_repo_discovery_refresh = now;
        }
        Some(demand)
    }

    /// A refresh worker reported back: nothing runs any more, and a refresh
    /// asked for meanwhile is marked due now.
    pub fn finish_refresh(&mut self, cache: &mut Vec<GitCacheSlot>, now: u64, intervals: GitRefreshIntervals)
        ensures
            *final(self) == finish_spec(*old(self), now, intervals),
            old(self).git_refresh_due_after_in_flight ==> cache_slots_model(final(cache)@)
                == fingerprinted(cache_slots_model(old(cache)@)),
            !old(self).git_refresh_due_after_in_flight ==> final(cache)@ == old(cache)@,
    {
        self.git_refresh_in_flight = false;
        if self.git_refresh_due_after_in_flight {
            self.mark_git_status_refresh_due(cache, now, intervals);
        }
    }
}

// ---------------------------------------------------------------------------
// The status cache
// ---------------------------------------------------------------------------

/// What the scheduler knows of one cached status: its repository key and
/// whether it carries a fingerprint (entries without one are results for
/// directories outside any repository, kept only until the next explicit
/// refresh).
#[derive(Debug, Clone, PartialEq, Eq)]
pub struct GitCacheSlot {
    pub key: String,
    pub fingerprinted: bool,
}

pub open spec fn cache_slots_model(slots: Seq<GitCacheSlot>) -> Seq<(Seq<char>, bool)> {
    slots.map_values(|s: GitCacheSlot| (s.key@, s.fingerprinted))
}

/// No two cache entries are for the same path (the cache is a map keyed
/// by repository path).
pub open spec fn slot_keys_distinct(slots: Seq<(Seq<char>, bool)>) -> bool {
    forall|i: int, j: int| 0 <= i < j < slots.len() ==> !same_path(#[trigger] slots[i].0, #[trigger] slots[j].0)
}

/// The entries that carry a fingerprint, in order.
pub open spec fn fingerprinted(slots: Seq<(Seq<char>, bool)>) -> Seq<(Seq<char>, bool)>
    decreases slots.len(),
{
    if slots.len() == 0 {
        Seq::empty()
    } else if slots.last().1 {
        fingerprinted(slots.drop_last()).push(slots.last())
    } else {
        fingerprinted(slots.drop_last())
    }
}

fn retain_fingerprinted(cache: &mut Vec<GitCacheSlot>)
    ensures
        cache_slots_model(final(cache)@) == fingerprinted(cache_slots_model(old(cache)@)),
{
    let ghost all = cache_slots_model(cache@);
    let mut kept: Vec<GitCacheSlot> = Vec::new();
    let n = cache.len();
    let mut i: usize = 0;
    while i < n
        invariant
            n == cache@.len(),
            all == cache_slots_model(cache@),
            i <= n,
            cache_slots_model(kept@) == fingerprinted(all.subrange(0, i as int)),
        decreases n - i,
    {
        proof {
            assert(all.subrange(0, i + 1).drop_last() =~= all.subrange(0, i as int));
        }
        if cache[i].fingerprinted {
            let slot = GitCacheSlot { key: cache[i].key.clone(), fingerprinted: true };
            let ghost before = kept@;
            kept.push(slot);
            assert(cache_slots_model(kept@) =~= cache_slots_model(before).push((slot.key@, true)));
        }
        i = i + 1;
    }
    assert(all.subrange(0, n as int) =~= all);
    *cache = kept;
}

// ---------------------------------------------------------------------------
// Refresh items and their deduplication
// ---------------------------------------------------------------------------

/// What the app resolved for one workspace: its identity cwd (if it has
/// one), the cwd and repository key cached from the last refresh, and, for
/// each pane whose cwd lies in a repository, that cwd and the repository's
/// cache key.
#[derive(Debug, Clone, PartialEq, Eq)]
pub struct WorkspaceGitSource {
    pub workspace_id: String,
    pub identity_cwd: Option<String>,
    pub cached_identity_cwd: String,
    pub cached_git_status_key: String,
    pub pane_repos: Vec<(String, String)>,
}

/// One status to compute: for a workspace, at a cwd, with the repository
/// key when it is already known.
#[derive(Debug, Clone, PartialEq, Eq)]
pub struct WorkspaceGitRefreshItem {
    pub workspace_id: String,
    pub resolved_identity_cwd: String,
    pub cache_key_hint: Option<String>,
}

pub struct ItemModel {
    pub workspace_id: Seq<char>,
    pub cwd: Seq<char>,
    pub hint: Option<Seq<char>>,
}

pub open spec fn item_model(i: WorkspaceGitRefreshItem) -> ItemModel {
    ItemModel {
        workspace_id: i.workspace_id@,
        cwd: i.resolved_identity_cwd@,
        hint: match i.cache_key_hint {
            Some(h) => Some(h@),
            None => None,
        },
    }
}

pub open spec fn items_model(items: Seq<WorkspaceGitRefreshItem>) -> Seq<ItemModel> {
    items.map_values(|i: WorkspaceGitRefreshItem| item_model(i))
}

/// The items of one workspace: its identity cwd first (it owns the job of
/// its repository), reusing the cached key only when no rediscovery is due
/// and the cwd has not moved; then, when the pane title needs git facts,
/// one item per pane in a repository.
pub open spec fn workspace_items(ws: WorkspaceGitSource, refresh_repo_discovery: bool, collect_panes: bool) -> Seq<
    ItemModel,
> {
    let identity = match ws.identity_cwd {
        Some(cwd) => seq![
            ItemModel {
                workspace_id: ws.workspace_id@,
                cwd: cwd@,
                hint: if !refresh_repo_discovery && same_path(ws.cached_identity_cwd@, cwd@) {
                    Some(ws.cached_git_status_key@)
                } else {
                    None
                },
            },
        ],
        None => Seq::empty(),
    };
    let panes = if collect_panes {
        Seq::new(
            ws.pane_repos@.len(),
            |k: int|
                ItemModel {
                    workspace_id: ws.workspace_id@,
                    cwd: ws.pane_repos@[k].0@,
                    hint: Some(ws.pane_repos@[k].1@),
                },
        )
    } else {
        Seq::empty()
    };
    identity + panes
}

/// The items of all workspaces, in order.
pub open spec fn refresh_items_spec(
    sources: Seq<WorkspaceGitSource>,
    refresh_repo_discovery: bool,
    collect_panes: bool,
) -> Seq<ItemModel>
    decreases sources.len(),
{
    if sources.len() == 0 {
        Seq::empty()
    } else {
        refresh_items_spec(sources.drop_last(), refresh_repo_discovery, collect_panes)
            + workspace_items(sources.last(), refresh_repo_discovery, collect_panes)
    }
}

fn push_item(items: &mut Vec<WorkspaceGitRefreshItem>, item: WorkspaceGitRefreshItem)
    ensures
        items_model(final(items)@) == items_model(old(items)@).push(item_model(item)),
{
    let ghost m = item_model(item);
    items.push(item);
    assert(items_model(items@) =~= items_model(old(items)@).push(m));
}

/// The refresh items of all workspaces, per [`refresh_items_spec`]; pane
/// cwds are collected only when the pane title needs a git fact.
pub fn workspace_git_refresh_items(
    sources: &[WorkspaceGitSource],
    title: &[Segment],
    refresh_repo_discovery: bool,
) -> (items: Vec<WorkspaceGitRefreshItem>)
    ensures
        items_model(items@) == refresh_items_spec(
            sources@,
            refresh_repo_discovery,
            !title_demand_spec(segments_model(title@)).is_empty_spec(),
        ),
{
    let collect_pane_cwds = !pane_title_git_demand(title).is_empty();
    let ghost collect = collect_pane_cwds;
    let mut items: Vec<WorkspaceGitRefreshItem> = Vec::new();
    let n = sources.len();
    let mut w: usize = 0;
    while w < n
        invariant
            n == sources@.len(),
            w <= n,
            collect == collect_pane_cwds,
            items_model(items@) == refresh_items_spec(
                sources@.subrange(0, w as int),
                refresh_repo_discovery,
                collect,
            ),
        decreases n - w,
    {
        let ws = &sources[w];
        let ghost before = items_model(items@);
        let ghost identity = workspace_items(*ws, refresh_repo_discovery, false);
        let ghost panes = Seq::new(
            ws.pane_repos@.len(),
            |j: int|
                ItemModel {
                    workspace_id: ws.workspace_id@,
                    cwd: ws.pane_repos@[j].0@,
                    hint: Some(ws.pane_repos@[j].1@),
                },
        );
        match &ws.identity_cwd {
            Some(cwd) => {
                let cache_key_hint = if !refresh_repo_discovery && is_same_path(ws.cached_identity_cwd.as_str(), cwd.as_str()) {
                    Some(ws.cached_git_status_key.clone())
                } else {
                    None
                };
                push_item(
                    &mut items,
                    WorkspaceGitRefreshItem {
                        workspace_id: ws.workspace_id.clone(),
                        resolved_identity_cwd: cwd.clone(),
                        cache_key_hint,
                    },
                );
            },
            None => {},
        }
        let ghost mid = items_model(items@);
        assert(identity + Seq::<ItemModel>::empty() =~= identity);
        assert(mid =~= before + identity);
        if collect_pane_cwds {
            let m = ws.pane_repos.len();
            let mut k: usize = 0;
            while k < m
                invariant
                    m == ws.pane_repos@.len(),
                    k <= m,
                    w < n,
                    n == sources@.len(),
                    ws == &sources@[w as int],
                    items_model(items@) == mid + Seq::new(
                        k as nat,
                        |j: int|
                            ItemModel {
                                workspace_id: ws.workspace_id@,
                                cwd: ws.pane_repos@[j].0@,
                                hint: Some(ws.pane_repos@[j].1@),
                            },
                    ),
                decreases m - k,
            {
                push_item(
                    &mut items,
                    WorkspaceGitRefreshItem {
                        workspace_id: ws.workspace_id.clone(),
                        resolved_identity_cwd: ws.pane_repos[k].0.clone(),
                        cache_key_hint: Some(ws.pane_repos[k].1.clone()),
                    },
                );
                k = k + 1;
                assert(items_model(items@) =~= mid + Seq::new(
                    k as nat,
                    |j: int|
                        ItemModel {
                            workspace_id: ws.workspace_id@,
                            cwd: ws.pane_repos@[j].0@,
                            hint: Some(ws.pane_repos@[j].1@),
                        },
                ));
            }
            assert(items_model(items@) =~= mid + panes);
            assert((before + identity) + panes =~= before + (identity + panes));
            assert(workspace_items(*ws, refresh_repo_discovery, true) =~= identity + panes);
            assert(items_model(items@) =~= before + workspace_items(*ws, refresh_repo_discovery, true));
        } else {
            assert(items_model(items@) =~= mid + Seq::<ItemModel>::empty());
            assert(workspace_items(*ws, refresh_repo_discovery, false) =~= identity);
            assert(items_model(items@) =~= before + workspace_items(*ws, refresh_repo_discovery, false));
        }
        proof {
            assert(sources@.subrange(0, w + 1).drop_last() =~= sources@.subrange(0, w as int));
            assert(sources@.subrange(0, w + 1).last() == *ws);
        }
        w = w + 1;
    }
    assert(sources@.subrange(0, n as int) =~= sources@);
    items
}

/// A workspace that one job's status goes to.
#[derive(Debug, Clone, PartialEq, Eq)]
pub struct WorkspaceGitRefreshTarget {
    pub workspace_id: String,
    pub resolved_identity_cwd: String,
}

/// One git status computation: the repository key, the cached entry to
/// start from (an index into the cache), and the workspaces it serves.
#[derive(Debug, Clone, PartialEq, Eq)]
pub struct WorkspaceGitRefreshJob {
    pub cache_key: String,
    pub cached: Option<usize>,
    pub targets: Vec<WorkspaceGitRefreshTarget>,
}

pub struct JobModel {
    pub key: Seq<char>,
    pub cached: Option<usize>,
    pub targets: Seq<(Seq<char>, Seq<char>)>,
}

pub open spec fn job_model(j: WorkspaceGitRefreshJob) -> JobModel {
    JobModel {
        key: j.cache_key@,
        cached: j.cached,
        targets: j.targets@.map_values(|t: WorkspaceGitRefreshTarget| (t.workspace_id@, t.resolved_identity_cwd@)),
    }
}

pub open spec fn jobs_model(jobs: Seq<WorkspaceGitRefreshJob>) -> Seq<JobModel> {
    jobs.map_values(|j: WorkspaceGitRefreshJob| job_model(j))
}

/// The repository key of an item: its hint, else the key found for its
/// cwd (the cwd itself outside any repository).
pub open spec fn item_key(item: ItemModel, discovered: Option<Seq<char>>) -> Seq<char> {
    match item.hint {
        Some(h) => h,
        None => discovered->0,
    }
}

/// The first job whose key is the same path as `key`, from position `k`
/// on.
pub open spec fn job_with_key(jobs: Seq<JobModel>, key: Seq<char>, k: int) -> Option<int>
    decreases jobs.len() - k,
{
    if k < 0 || k >= jobs.len() {
        None
    } else if same_path(jobs[k].key, key) {
        Some(k)
    } else {
        job_with_key(jobs, key, k + 1)
    }
}

/// The first cache slot whose key is the same path as `key`, from position
/// `k` on.
pub open spec fn slot_with_key(cache: Seq<(Seq<char>, bool)>, key: Seq<char>, k: int) -> Option<int>
    decreases cache.len() - k,
{
    if k < 0 || k >= cache.len() {
        None
    } else if same_path(cache[k].0, key) {
        Some(k)
    } else {
        slot_with_key(cache, key, k + 1)
    }
}

/// Folds one item into the jobs: an item whose key already has a job joins
/// it (and, when the item came without a hint, the job stops trusting its
/// cached entry); otherwise a new job starts, from the cached entry of its
/// key unless the item came without a hint.
pub open spec fn add_item(
    jobs: Seq<JobModel>,
    item: ItemModel,
    discovered: Option<Seq<char>>,
    cache: Seq<(Seq<char>, bool)>,
) -> Seq<JobModel> {
    let key = item_key(item, discovered);
    let reconcile = item.hint is None;
    let target = (item.workspace_id, item.cwd);
    match job_with_key(jobs, key, 0) {
        Some(i) => jobs.update(
            i,
            JobModel {
                key: jobs[i].key,
                cached: if reconcile {
                    None
                } else {
                    jobs[i].cached
                },
                targets: jobs[i].targets.push(target),
            },
        ),
        None => jobs.push(
            JobModel {
                key,
                cached: if reconcile {
                    None
                } else {
                    match slot_with_key(cache, key, 0) {
                        Some(s) => Some(s as usize),
                        None => None,
                    }
                },
                targets: seq![target],
            },
        ),
    }
}

/// The jobs for `items`, folded in order.
pub open spec fn dedup_spec(
    items: Seq<ItemModel>,
    discovered: Seq<Option<Seq<char>>>,
    cache: Seq<(Seq<char>, bool)>,
) -> Seq<JobModel>
    decreases items.len(),
{
    if items.len() == 0 {
        Seq::empty()
    } else {
        add_item(
            dedup_spec(items.drop_last(), discovered.drop_last(), cache),
            items.last(),
            discovered.last(),
            cache,
        )
    }
}

/// Every item without a hint comes with the key found for its cwd.
pub open spec fn keys_discovered(items: Seq<ItemModel>, discovered: Seq<Option<Seq<char>>>) -> bool {
    discovered.len() == items.len() && forall|i: int|
        0 <= i < items.len() && (#[trigger] items[i]).hint is None ==> discovered[i] is Some
}

pub open spec fn discovered_model(d: Seq<Option<String>>) -> Seq<Option<Seq<char>>> {
    d.map_values(|o: Option<String>| match o {
        Some(s) => Some(s@),
        None => None,
    })
}

fn find_job(jobs: &Vec<WorkspaceGitRefreshJob>, key: &String) -> (found: Option<usize>)
    ensures
        found is Some ==> found->0 < jobs@.len() && job_with_key(jobs_model(jobs@), key@, 0) == Some(
            found->0 as int,
        ),
        found is None ==> job_with_key(jobs_model(jobs@), key@, 0) is None,
{
    let n = jobs.len();
    let mut k = n;
    let mut found: Option<usize> = None;
    while k > 0
        invariant
            n == jobs@.len(),
            k <= n,
            found is Some ==> found->0 < n && job_with_key(jobs_model(jobs@), key@, k as int) == Some(
                found->0 as int,
            ),
            found is None ==> job_with_key(jobs_model(jobs@), key@, k as int) is None,
        decreases k,
    {
        k = k - 1;
        assert(jobs_model(jobs@)[k as int].key == jobs@[k as int].cache_key@);
        if is_same_path(jobs[k].cache_key.as_str(), key.as_str()) {
            found = Some(k);
        }
    }
    found
}

fn find_slot(cache: &[GitCacheSlot], key: &String) -> (found: Option<usize>)
    ensures
        match slot_with_key(cache_slots_model(cache@), key@, 0) {
            Some(i) => found == Some(i as usize),
            None => found is None,
        },
{
    let n = cache.len();
    let mut k = n;
    let mut found: Option<usize> = None;
    while k > 0
        invariant
            n == cache@.len(),
            k <= n,
            match slot_with_key(cache_slots_model(cache@), key@, k as int) {
                Some(i) => found == Some(i as usize),
                None => found is None,
            },
        decreases k,
    {
        k = k - 1;
        if is_same_path(cache[k].key.as_str(), key.as_str()) {
            found = Some(k);
        }
    }
    found
}

/// Folds the refresh items into one job per repository key, in the order
/// keys first appear, per [`dedup_spec`]; keys are compared as paths, so
/// `/repo` and `/repo/` share a job. `discovered[i]` is the key found
/// for item `i`'s cwd (the cwd itself outside any repository); it is read
/// only for items without a hint.
pub fn deduplicate_git_refresh_items(
    items: Vec<WorkspaceGitRefreshItem>,
    discovered: Vec<Option<String>>,
    cache: &[GitCacheSlot],
) -> (jobs: Vec<WorkspaceGitRefreshJob>)
    requires
        keys_discovered(items_model(items@), discovered_model(discovered@)),
        slot_keys_distinct(cache_slots_model(cache@)),
    ensures
        jobs_model(jobs@) == dedup_spec(
            items_model(items@),
            discovered_model(discovered@),
            cache_slots_model(cache@),
        ),
{
    let ghost im = items_model(items@);
    let ghost dm = discovered_model(discovered@);
    let ghost cm = cache_slots_model(cache@);
    let n = items.len();
    let mut jobs: Vec<WorkspaceGitRefreshJob> = Vec::new();
    let mut i: usize = 0;
    while i < n
        invariant
            n == items@.len(),
            n == discovered@.len(),
            im == items_model(items@),
            dm == discovered_model(discovered@),
            cm == cache_slots_model(cache@),
            keys_discovered(im, dm),
            i <= n,
            jobs_model(jobs@) == dedup_spec(im.subrange(0, i as int), dm.subrange(0, i as int), cm),
        decreases n - i,
    {
        let item = &items[i];
        proof {
            assert(im.subrange(0, i + 1).drop_last() =~= im.subrange(0, i as int));
            assert(dm.subrange(0, i + 1).drop_last() =~= dm.subrange(0, i as int));
            assert(im[i as int] == item_model(*item));
        }
        let reconcile = item.cache_key_hint.is_none();
        let cache_key = match &item.cache_key_hint {
            Some(hint) => hint.clone(),
            None => match &discovered[i] {
                Some(key) => key.clone(),
                None => {
                    assert(im[i as int].hint is None);
                    assert(false);
                    String::new()
                },
            },
        };
        assert(cache_key@ == item_key(im[i as int], dm[i as int]));
        let target = WorkspaceGitRefreshTarget {
            workspace_id: item.workspace_id.clone(),
            resolved_identity_cwd: item.resolved_identity_cwd.clone(),
        };
        let ghost before = jobs_model(jobs@);
        let ghost t = (item.workspace_id@, item.resolved_identity_cwd@);
        match find_job(&jobs, &cache_key) {
            Some(index) => {
                let old_job = &jobs[index];
                let mut targets = clone_targets(&old_job.targets);
                targets.push(target);
                let job = WorkspaceGitRefreshJob {
                    cache_key: old_job.cache_key.clone(),
                    cached: if reconcile {
                        None
                    } else {
                        old_job.cached
                    },
                    targets,
                };
                let ghost jm = job_model(job);
                assert(jm.targets =~= before[index as int].targets.push(t));
                assert(job_with_key(before, cache_key@, 0) == Some(index as int));
                assert(jm.key == before[index as int].key);
                assert(jm.cached == (if reconcile {
                    None
                } else {
                    before[index as int].cached
                }));
                jobs.set(index, job);
                assert(jobs_model(jobs@) =~= before.update(index as int, jm));
            },
            None => {
                let cached = if reconcile {
                    None
                } else {
                    find_slot(cache, &cache_key)
                };
                let mut targets: Vec<WorkspaceGitRefreshTarget> = Vec::new();
                targets.push(target);
                let job = WorkspaceGitRefreshJob { cache_key, cached, targets };
                let ghost jm = job_model(job);
                assert(jm.targets =~= seq![t]);
                assert(job_with_key(before, jm.key, 0) is None);
                jobs.push(job);
                assert(jobs_model(jobs@) =~= before.push(jm));
            },
        }
        proof {
            let sub1 = im.subrange(0, i + 1);
            let dsub1 = dm.subrange(0, i + 1);
            assert(sub1.last() == im[i as int]);
            assert(dsub1.last() == dm[i as int]);
            assert(dedup_spec(sub1, dsub1, cm) == add_item(
                dedup_spec(im.subrange(0, i as int), dm.subrange(0, i as int), cm),
                im[i as int],
                dm[i as int],
                cm,
            ));
            assert(jobs_model(jobs@) == add_item(before, im[i as int], dm[i as int], cm));
        }
        i = i + 1;
    }
    assert(im.subrange(0, n as int) =~= im);
    assert(dm.subrange(0, n as int) =~= dm);
    jobs
}

fn clone_targets(targets: &Vec<WorkspaceGitRefreshTarget>) -> (r: Vec<WorkspaceGitRefreshTarget>)
    ensures
        r@ == targets@,
{
    let mut r: Vec<WorkspaceGitRefreshTarget> = Vec::new();
    let n = targets.len();
    let mut i: usize = 0;
    while i < n
        invariant
            n == targets@.len(),
            i <= n,
            r@ == targets@.subrange(0, i as int),
        decreases n - i,
    {
        let t = WorkspaceGitRefreshTarget {
            workspace_id: targets[i].workspace_id.clone(),
            resolved_identity_cwd: targets[i].resolved_identity_cwd.clone(),
        };
        r.push(t);
        i = i + 1;
        assert(r@ =~= targets@.subrange(0, i as int));
    }
    assert(targets@.subrange(0, n as int) =~= targets@);
    r
}

// ---------------------------------------------------------------------------
// Assembling a refresh's output
// ---------------------------------------------------------------------------

/// One workspace's refreshed status: the workspace and cwd it is for, the
/// repository key it was computed under, and the job (an index into the
/// jobs) whose snapshot it takes.
#[derive(Debug, Clone, PartialEq, Eq)]
pub struct WorkspaceGitRefreshResult {
    pub workspace_id: String,
    pub resolved_identity_cwd: String,
    pub cache_key: String,
    pub job: usize,
}

/// What a refresh hands back once every job has run: one result per
/// target, and the cache entries to store, keyed by repository and naming
/// the job that produced each.
#[derive(Debug, Clone, PartialEq, Eq)]
pub struct GitRefreshOutputPlan {
    pub results: Vec<WorkspaceGitRefreshResult>,
    pub cache_updates: Vec<(String, usize)>,
}

pub open spec fn result_model(r: WorkspaceGitRefreshResult) -> (Seq<char>, Seq<char>, Seq<char>, int) {
    (r.workspace_id@, r.resolved_identity_cwd@, r.cache_key@, r.job as int)
}

pub open spec fn results_model(rs: Seq<WorkspaceGitRefreshResult>) -> Seq<(Seq<char>, Seq<char>, Seq<char>, int)> {
    rs.map_values(|r: WorkspaceGitRefreshResult| result_model(r))
}

pub open spec fn updates_model(us: Seq<(String, usize)>) -> Seq<(Seq<char>, int)> {
    us.map_values(|u: (String, usize)| (u.0@, u.1 as int))
}

/// The results of job `j`: its targets in order, each with the job's key
/// and index.
pub open spec fn job_results(jobs: Seq<JobModel>, j: int) -> Seq<(Seq<char>, Seq<char>, Seq<char>, int)> {
    Seq::new(
        jobs[j].targets.len(),
        |t: int| (jobs[j].targets[t].0, jobs[j].targets[t].1, jobs[j].key, j),
    )
}

/// The results of the first `n` jobs, job after job.
pub open spec fn results_upto(jobs: Seq<JobModel>, n: int) -> Seq<(Seq<char>, Seq<char>, Seq<char>, int)>
    decreases n,
{
    if n <= 0 {
        Seq::empty()
    } else {
        results_upto(jobs, n - 1) + job_results(jobs, n - 1)
    }
}

/// The cache updates of the first `n` jobs: each job that produced a cache
/// entry, with its key and index, in order.
pub open spec fn cache_updates_upto(jobs: Seq<JobModel>, produced: Seq<bool>, n: int) -> Seq<(Seq<char>, int)>
    decreases n,
{
    if n <= 0 {
        Seq::empty()
    } else if produced[n - 1] {
        cache_updates_upto(jobs, produced, n - 1).push((jobs[n - 1].key, n - 1))
    } else {
        cache_updates_upto(jobs, produced, n - 1)
    }
}

/// Assembles a refresh's output once each job has run: every job's
/// targets become results in order, carrying the job's key and index, and
/// each job that produced a cache entry (`produced`) yields one cache
/// update under its key.
pub fn assemble_git_refresh_output(jobs: &[WorkspaceGitRefreshJob], produced: &[bool]) -> (out:
    GitRefreshOutputPlan)
    requires
        produced@.len() == jobs@.len(),
    ensures
        results_model(out.results@) == results_upto(jobs_model(jobs@), jobs@.len() as int),
        updates_model(out.cache_updates@) == cache_updates_upto(
            jobs_model(jobs@),
            produced@,
            jobs@.len() as int,
        ),
{
    let ghost jm = jobs_model(jobs@);
    let n = jobs.len();
    let mut results: Vec<WorkspaceGitRefreshResult> = Vec::new();
    let mut cache_updates: Vec<(String, usize)> = Vec::new();
    let mut j: usize = 0;
    while j < n
        invariant
            n == jobs@.len(),
            produced@.len() == n,
            jm == jobs_model(jobs@),
            j <= n,
            results_model(results@) == results_upto(jm, j as int),
            updates_model(cache_updates@) == cache_updates_upto(jm, produced@, j as int),
        decreases n - j,
    {
        let job = &jobs[j];
        let ghost base = results_model(results@);
        let m = job.targets.len();
        let mut t: usize = 0;
        while t < m
            invariant
                m == job.targets@.len(),
                j < n,
                n == jobs@.len(),
                jm == jobs_model(jobs@),
                *job == jobs@[j as int],
                t <= m,
                results_model(results@) == base + job_results(jm, j as int).subrange(0, t as int),
            decreases m - t,
        {
            let r = WorkspaceGitRefreshResult {
                workspace_id: job.targets[t].workspace_id.clone(),
                resolved_identity_cwd: job.targets[t].resolved_identity_cwd.clone(),
                cache_key: job.cache_key.clone(),
                job: j,
            };
            let ghost before = results_model(results@);
            results.push(r);
            assert(results_model(results@) =~= before.push(result_model(r)));
            assert(job_results(jm, j as int).subrange(0, t + 1) =~= job_results(jm, j as int).subrange(
                0,
                t as int,
            ).push(result_model(r)));
            t = t + 1;
        }
        assert(job_results(jm, j as int).subrange(0, m as int) =~= job_results(jm, j as int));
        if produced[j] {
            let ghost before = updates_model(cache_updates@);
            cache_updates.push((job.cache_key.clone(), j));
            assert(updates_model(cache_updates@) =~= before.push((jm[j as int].key, j as int)));
        }
        j = j + 1;
    }
    GitRefreshOutputPlan { results, cache_updates }
}

// ---------------------------------------------------------------------------
// Pane cwd tracking
// ---------------------------------------------------------------------------

/// What the app observed of one pane: its terminal and the cwd it
/// resolves for the pane now (if any).
#[derive(Debug, Clone, PartialEq, Eq)]
pub struct PaneCwdObservation {
    pub terminal_id: String,
    pub live_cwd: Option<String>,
}

/// A terminal's cached working directory.
#[derive(Debug, Clone, PartialEq, Eq)]
pub struct TerminalCwd {
    pub terminal_id: String,
    pub cwd: String,
}

pub open spec fn terminals_model(ts: Seq<TerminalCwd>) -> Seq<(Seq<char>, Seq<char>)> {
    ts.map_values(|t: TerminalCwd| (t.terminal_id@, t.cwd@))
}

/// The cwd cached for terminal `id`: that of its first entry.
pub open spec fn cached_cwd(ts: Seq<(Seq<char>, Seq<char>)>, id: Seq<char>) -> Option<Seq<char>>
    decreases ts.len(),
{
    if ts.len() == 0 {
        None
    } else if ts[0].0 == id {
        Some(ts[0].1)
    } else {
        cached_cwd(ts.drop_first(), id)
    }
}

/// A pane moves its terminal's cached cwd: the terminal is known, the
/// pane's live cwd is absolute, and it is another path than the cached one.
pub open spec fn moves_cwd(ts: Seq<(Seq<char>, Seq<char>)>, o: PaneCwdObservation) -> bool {
    &&& o.live_cwd is Some
    &&& has_root(o.live_cwd->0@)
    &&& cached_cwd(ts, o.terminal_id@) is Some
    &&& !same_path(cached_cwd(ts, o.terminal_id@)->0, o.live_cwd->0@)
}

/// The cached cwds to move, in the order of the panes: each pane that
/// [`moves_cwd`], with its terminal and live cwd. All are judged against
/// the cache as it was before any move.
pub open spec fn cwd_updates_spec(ts: Seq<(Seq<char>, Seq<char>)>, obs: Seq<PaneCwdObservation>) -> Seq<
    (Seq<char>, Seq<char>),
>
    decreases obs.len(),
{
    if obs.len() == 0 {
        Seq::empty()
    } else {
        let o = obs.last();
        let rest = cwd_updates_spec(ts, obs.drop_last());
        if moves_cwd(ts, o) {
            rest.push((o.terminal_id@, o.live_cwd->0@))
        } else {
            rest
        }
    }
}

/// The cwd of terminal `id` after the moves `ups` are applied in order to
/// a cache holding `cwd`: the last move for `id`, else `cwd`.
pub open spec fn moved_cwd(ups: Seq<(Seq<char>, Seq<char>)>, id: Seq<char>, cwd: Seq<char>) -> Seq<char>
    decreases ups.len(),
{
    if ups.len() == 0 {
        cwd
    } else if ups.last().0 == id {
        ups.last().1
    } else {
        moved_cwd(ups.drop_last(), id, cwd)
    }
}

/// The cache after the moves `ups`: every terminal keeps its place and id,
/// and takes its last move's cwd.
pub open spec fn apply_moves(ts: Seq<(Seq<char>, Seq<char>)>, ups: Seq<(Seq<char>, Seq<char>)>) -> Seq<
    (Seq<char>, Seq<char>),
> {
    Seq::new(ts.len(), |k: int| (ts[k].0, moved_cwd(ups, ts[k].0, ts[k].1)))
}

pub open spec fn pairs_model(v: Seq<(String, String)>) -> Seq<(Seq<char>, Seq<char>)> {
    v.map_values(|p: (String, String)| (p.0@, p.1@))
}

fn cached_cwd_of<'a>(terminals: &'a [TerminalCwd], id: &str) -> (cwd: Option<&'a String>)
    ensures
        match cached_cwd(terminals_model(terminals@), id@) {
            Some(c) => cwd is Some && cwd->0@ == c,
            None => cwd is None,
        },
{
    let n = terminals.len();
    let mut k: usize = 0;
    assert(terminals_model(terminals@).subrange(0, n as int) =~= terminals_model(terminals@));
    while k < n
        invariant
            n == terminals@.len(),
            k <= n,
            cached_cwd(terminals_model(terminals@), id@) == cached_cwd(
                terminals_model(terminals@).subrange(k as int, n as int),
                id@,
            ),
        decreases n - k,
    {
        let ghost rest = terminals_model(terminals@).subrange(k as int, n as int);
        assert(rest.drop_first() =~= terminals_model(terminals@).subrange(k + 1, n as int));
        assert(rest[0] == terminals_model(terminals@)[k as int]);
        if str_equal(terminals[k].terminal_id.as_str(), id) {
            return Some(&terminals[k].cwd);
        }
        k = k + 1;
    }
    None
}

/// The cached cwds to move, per [`cwd_updates_spec`].
pub fn pane_cwd_updates(terminals: &[TerminalCwd], observed: &[PaneCwdObservation]) -> (updates: Vec<
    (String, String),
>)
    ensures
        pairs_model(updates@) == cwd_updates_spec(terminals_model(terminals@), observed@),
{
    let ghost ts = terminals_model(terminals@);
    let n = observed.len();
    let mut updates: Vec<(String, String)> = Vec::new();
    let mut i: usize = 0;
    while i < n
        invariant
            n == observed@.len(),
            ts == terminals_model(terminals@),
            i <= n,
            pairs_model(updates@) == cwd_updates_spec(ts, observed@.subrange(0, i as int)),
        decreases n - i,
    {
        proof {
            assert(observed@.subrange(0, i + 1).drop_last() =~= observed@.subrange(0, i as int));
        }
        let o = &observed[i];
        if let Some(cwd) = &o.live_cwd {
            if path_has_root(cwd.as_str()) {
                if let Some(cached) = cached_cwd_of(terminals, o.terminal_id.as_str()) {
                    if !is_same_path(cached.as_str(), cwd.as_str()) {
                        let ghost before = pairs_model(updates@);
                        let pair = (o.terminal_id.clone(), cwd.clone());
                        updates.push(pair);
                        assert(pairs_model(updates@) =~= before.push((o.terminal_id@, cwd@)));
                    }
                }
            }
        }
        i = i + 1;
    }
    assert(observed@.subrange(0, n as int) =~= observed@);
    updates
}

/// Moves each terminal's cached cwd to the cwd its panes report now: the
/// moves of [`cwd_updates_spec`], judged against the cache as it was,
/// applied in order. Marks the session dirty exactly when something moved,
/// and returns whether something did.
pub fn sync_pane_cwds(
    terminals: &mut Vec<TerminalCwd>,
    session_dirty: &mut bool,
    observed: &[PaneCwdObservation],
) -> (changed: bool)
    ensures
        changed == (cwd_updates_spec(terminals_model(old(terminals)@), observed@).len() > 0),
        terminals_model(final(terminals)@) == apply_moves(
            terminals_model(old(terminals)@),
            cwd_updates_spec(terminals_model(old(terminals)@), observed@),
        ),
        *final(session_dirty) == (*old(session_dirty) || changed),
{
    let ghost ts0 = terminals_model(terminals@);
    let updates = pane_cwd_updates(terminals.as_slice(), observed);
    let ghost ups = pairs_model(updates@);
    if updates.len() == 0 {
        assert(apply_moves(ts0, ups) =~= ts0);
        return false;
    }
    let m = updates.len();
    let mut j: usize = 0;
    assert(apply_moves(ts0, ups.subrange(0, 0)) =~= terminals_model(terminals@));
    while j < m
        invariant
            m == updates@.len(),
            ups == pairs_model(updates@),
            j <= m,
            terminals_model(terminals@) == apply_moves(ts0, ups.subrange(0, j as int)),
        decreases m - j,
    {
        let n = terminals.len();
        let mut k: usize = 0;
        let ghost before = terminals_model(terminals@);
        let ghost upto = ups.subrange(0, j + 1);
        assert(upto.drop_last() =~= ups.subrange(0, j as int));
        while k < n
            invariant
                n == terminals@.len(),
                n == before.len(),
                k <= n,
                j < m,
                m == updates@.len(),
                ups == pairs_model(updates@),
                upto == ups.subrange(0, j + 1),
                upto.drop_last() == ups.subrange(0, j as int),
                before == apply_moves(ts0, ups.subrange(0, j as int)),
                forall|q: int| 0 <= q < k ==> #[trigger] terminals_model(terminals@)[q] == apply_moves(ts0, upto)[q],
                forall|q: int| k <= q < n ==> #[trigger] terminals_model(terminals@)[q] == before[q],
            decreases n - k,
        {
            let ghost cur = terminals_model(terminals@);
            assert(upto.last() == (updates@[j as int].0@, updates@[j as int].1@));
            assert(cur[k as int] == before[k as int]);
            assert(before.len() == ts0.len());
            assert(before[k as int] == (ts0[k as int].0, moved_cwd(upto.drop_last(), ts0[k as int].0, ts0[k as int].1)));
            assert(apply_moves(ts0, upto)[k as int] == (ts0[k as int].0, moved_cwd(upto, ts0[k as int].0, ts0[k as int].1)));
            assert(cur[k as int].0 == terminals@[k as int].terminal_id@);
            if str_equal(terminals[k].terminal_id.as_str(), updates[j].0.as_str()) {
                let t = TerminalCwd { terminal_id: terminals[k].terminal_id.clone(), cwd: updates[j].1.clone() };
                terminals.set(k, t);
                assert forall|q: int| 0 <= q < n && q != k implies #[trigger] terminals_model(terminals@)[q]
                    == cur[q] by {}
            }
            assert(terminals_model(terminals@)[k as int] == apply_moves(ts0, upto)[k as int]);
            k = k + 1;
        }
        assert(terminals_model(terminals@) =~= apply_moves(ts0, upto));
        j = j + 1;
    }
    assert(ups.subrange(0, m as int) =~= ups);
    *session_dirty = true;
    true
}

// ---------------------------------------------------------------------------
// Laws
// ---------------------------------------------------------------------------

/// A refresh asked for while another runs is not lost: once the running
/// one reports back, nothing runs, nothing is pending, and the refresh is
/// due at once (when there is something to refresh). This holds once the
/// clock has run for a full interval.
pub proof fn law_due_request_survives_in_flight_refresh(
    s: GitRefreshScheduler,
    asked_at: u64,
    finished_at: u64,
    inputs: GitRefreshInputs,
    intervals: GitRefreshIntervals,
)
    requires
        s.git_refresh_in_flight,
        finished_at >= intervals.remote_status_ms,
    ensures
        ({
            let after = finish_spec(mark_due_spec(s, asked_at, intervals), finished_at, intervals);
            &&& !after.git_refresh_in_flight
            &&& !after.git_refresh_due_after_in_flight
            &&& deadline_spec(after, inputs, intervals) matches Some(d) ==> d == finished_at
        }),
{
}

/// Marking the refresh due while none runs makes it due at once (when
/// there is something to refresh), once the clock has run for a full
/// interval.
pub proof fn law_marked_refresh_is_due_now(
    s: GitRefreshScheduler,
    now: u64,
    inputs: GitRefreshInputs,
    intervals: GitRefreshIntervals,
)
    requires
        !s.git_refresh_in_flight,
        now >= intervals.remote_status_ms,
    ensures
        deadline_spec(mark_due_spec(s, now, intervals), inputs, intervals) matches Some(d) ==> d
            == now,
{
}

/// No refresh is scheduled while one runs, nor when nothing asks for one:
/// no identity refresh, no git fact demanded, no pane title to track.
pub proof fn law_no_deadline_without_consumer(
    s: GitRefreshScheduler,
    inputs: GitRefreshInputs,
    intervals: GitRefreshIntervals,
)
    requires
        s.git_refresh_in_flight || inputs.no_workspaces || (!s.git_identity_refresh_requested
            && inputs.demand.is_empty_spec() && inputs.title_empty),
    ensures
        deadline_spec(s, inputs, intervals) is None,
{
}

/// The number of targets over all jobs.
pub open spec fn total_targets(jobs: Seq<JobModel>) -> int
    decreases jobs.len(),
{
    if jobs.len() == 0 {
        0
    } else {
        total_targets(jobs.drop_last()) + jobs.last().targets.len()
    }
}

proof fn lemma_job_with_key(jobs: Seq<JobModel>, key: Seq<char>, k: int)
    requires
        0 <= k,
    ensures
        job_with_key(jobs, key, k) matches Some(i) ==> k <= i < jobs.len() && same_path(jobs[i].key, key),
        job_with_key(jobs, key, k) is None ==> forall|j: int| k <= j < jobs.len() ==> !same_path(#[trigger] jobs[j].key, key),
    decreases jobs.len() - k,
{
    if k < jobs.len() && !same_path(jobs[k].key, key) {
        lemma_job_with_key(jobs, key, k + 1);
    }
}

proof fn lemma_total_push(jobs: Seq<JobModel>, j: JobModel)
    ensures
        total_targets(jobs.push(j)) == total_targets(jobs) + j.targets.len(),
{
    assert(jobs.push(j).drop_last() =~= jobs);
}

proof fn lemma_total_update(jobs: Seq<JobModel>, i: int, j: JobModel)
    requires
        0 <= i < jobs.len(),
    ensures
        total_targets(jobs.update(i, j)) == total_targets(jobs) - jobs[i].targets.len() + j.targets.len(),
    decreases jobs.len(),
{
    if i == jobs.len() - 1 {
        assert(jobs.update(i, j).drop_last() =~= jobs.drop_last());
    } else {
        lemma_total_update(jobs.drop_last(), i, j);
        assert(jobs.update(i, j).drop_last() =~= jobs.drop_last().update(i, j));
    }
}

/// Deduplication keeps every request: one job per distinct repository (no
/// two jobs' keys are the same path), and every item becomes exactly one
/// target.
pub proof fn law_dedup_one_job_per_key(
    items: Seq<ItemModel>,
    discovered: Seq<Option<Seq<char>>>,
    cache: Seq<(Seq<char>, bool)>,
)
    requires
        discovered.len() == items.len(),
    ensures
        ({
            let jobs = dedup_spec(items, discovered, cache);
            &&& forall|i: int, j: int| 0 <= i < j < jobs.len() ==> !same_path(#[trigger] jobs[i].key, #[trigger] jobs[j].key)
            &&& total_targets(jobs) == items.len()
        }),
    decreases items.len(),
{
    if items.len() > 0 {
        let prev_items = items.drop_last();
        let prev_disc = discovered.drop_last();
        law_dedup_one_job_per_key(prev_items, prev_disc, cache);
        let prev = dedup_spec(prev_items, prev_disc, cache);
        let item = items.last();
        let key = item_key(item, discovered.last());
        let target = (item.workspace_id, item.cwd);
        lemma_job_with_key(prev, key, 0);
        let jobs = dedup_spec(items, discovered, cache);
        match job_with_key(prev, key, 0) {
            Some(i) => {
                let nj = JobModel {
                    key: prev[i].key,
                    cached: if item.hint is None {
                        None
                    } else {
                        prev[i].cached
                    },
                    targets: prev[i].targets.push(target),
                };
                assert(jobs == prev.update(i, nj));
                lemma_total_update(prev, i, nj);
                assert forall|a: int, b: int| 0 <= a < b < jobs.len() implies !same_path(#[trigger] jobs[a].key,
                    #[trigger] jobs[b].key) by {
                    assert(jobs[a].key == prev[a].key);
                    assert(jobs[b].key == prev[b].key);
                }
            },
            None => {
                let nj = JobModel {
                    key,
                    cached: if item.hint is None {
                        None
                    } else {
                        match slot_with_key(cache, key, 0) {
                            Some(s) => Some(s as usize),
                            None => None,
                        }
                    },
                    targets: seq![target],
                };
                assert(jobs == prev.push(nj));
                lemma_total_push(prev, nj);
                assert forall|a: int, b: int| 0 <= a < b < jobs.len() implies !same_path(#[trigger] jobs[a].key,
                    #[trigger] jobs[b].key) by {
                    if b == prev.len() {
                        assert(!same_path(prev[a].key, key));
                    } else {
                        assert(jobs[a].key == prev[a].key);
                        assert(jobs[b].key == prev[b].key);
                    }
                }
            },
        }
    }
}

proof fn lemma_job_with_key_same_keys(a: Seq<JobModel>, b: Seq<JobModel>, key: Seq<char>, k: int)
    requires
        a.len() == b.len(),
        forall|j: int| 0 <= j < a.len() ==> #[trigger] a[j].key == b[j].key,
    ensures
        job_with_key(a, key, k) == job_with_key(b, key, k),
    decreases a.len() - k,
{
    if 0 <= k < a.len() && !same_path(a[k].key, key) {
        lemma_job_with_key_same_keys(a, b, key, k + 1);
    }
}

proof fn lemma_job_with_key_push(a: Seq<JobModel>, j: JobModel, key: Seq<char>, k: int)
    requires
        0 <= k,
    ensures
        job_with_key(a, key, k) is Some ==> job_with_key(a.push(j), key, k) == job_with_key(a, key, k),
        job_with_key(a, key, k) is None && same_path(j.key, key) && k <= a.len() ==> job_with_key(a.push(j), key, k)
            == Some(a.len() as int),
    decreases a.len() - k,
{
    if k < a.len() {
        assert(a.push(j)[k] == a[k]);
        if !same_path(a[k].key, key) {
            lemma_job_with_key_push(a, j, key, k + 1);
        }
    } else if k == a.len() {
        assert(a.push(j)[k] == j);
    }
}

/// An item that came without a cached repository key (so its repository
/// is rediscovered) keeps its job from starting at a cached entry: the job
/// for its key starts from scratch.
pub proof fn law_dedup_rediscovered_key_ignores_cache(
    items: Seq<ItemModel>,
    discovered: Seq<Option<Seq<char>>>,
    cache: Seq<(Seq<char>, bool)>,
    k: int,
)
    requires
        discovered.len() == items.len(),
        0 <= k < items.len(),
        items[k].hint is None,
    ensures
        ({
            let jobs = dedup_spec(items, discovered, cache);
            let found = job_with_key(jobs, item_key(items[k], discovered[k]), 0);
            &&& found is Some
            &&& jobs[found->0].cached is None
        }),
    decreases items.len(),
{
    let prev_items = items.drop_last();
    let prev_disc = discovered.drop_last();
    let prev = dedup_spec(prev_items, prev_disc, cache);
    let jobs = dedup_spec(items, discovered, cache);
    let item = items.last();
    let key = item_key(item, discovered.last());
    let kk = item_key(items[k], discovered[k]);
    let target = (item.workspace_id, item.cwd);
    lemma_job_with_key(prev, key, 0);
    lemma_job_with_key(prev, kk, 0);
    if k < items.len() - 1 {
        assert(prev_items[k] == items[k]);
        assert(prev_disc[k] == discovered[k]);
        law_dedup_rediscovered_key_ignores_cache(prev_items, prev_disc, cache, k);
    }
    match job_with_key(prev, key, 0) {
        Some(i) => {
            let nj = JobModel {
                key: prev[i].key,
                cached: if item.hint is None {
                    None
                } else {
                    prev[i].cached
                },
                targets: prev[i].targets.push(target),
            };
            assert(jobs == prev.update(i, nj));
            lemma_job_with_key_same_keys(jobs, prev, kk, 0);
            lemma_job_with_key_same_keys(jobs, prev, key, 0);
        },
        None => {
            let nj = JobModel {
                key,
                cached: if item.hint is None {
                    None
                } else {
                    match slot_with_key(cache, key, 0) {
                        Some(s) => Some(s as usize),
                        None => None,
                    }
                },
                targets: seq![target],
            };
            assert(jobs == prev.push(nj));
            lemma_job_with_key_push(prev, nj, kk, 0);
            if k < items.len() - 1 {
                assert(prev.push(nj)[job_with_key(prev, kk, 0)->0] == prev[job_with_key(prev, kk, 0)->0]);
            }
        },
    }
}


/// A workspace's identity item reuses the cached repository key only when
/// no rediscovery is due and its cwd has not moved (the cached identity
/// cwd is the same path as the current one); then it reuses exactly the
/// cached key. A moved cwd, or a due rediscovery, leaves the key to be
/// found again. Pane items always carry their repository key.
pub proof fn law_identity_item_reuses_the_key_only_for_an_unmoved_cwd(
    ws: WorkspaceGitSource,
    refresh_repo_discovery: bool,
    collect_panes: bool,
)
    ensures
        ws.identity_cwd matches Some(cwd) ==> {
            let it = workspace_items(ws, refresh_repo_discovery, collect_panes)[0];
            &&& it.workspace_id == ws.workspace_id@
            &&& it.cwd == cwd@
            &&& (it.hint is Some <==> !refresh_repo_discovery && same_path(ws.cached_identity_cwd@, cwd@))
            &&& (it.hint is Some ==> it.hint->0 == ws.cached_git_status_key@)
        },
        forall|k: int|
            0 <= k < workspace_items(ws, refresh_repo_discovery, collect_panes).len() && (k > 0
                || ws.identity_cwd is None) ==> (#[trigger] workspace_items(
                ws,
                refresh_repo_discovery,
                collect_panes,
            )[k]).hint is Some,
{
}

} // verus!
