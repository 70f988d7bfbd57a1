//! The tracked state: for each repository (keyed by its Git common dir), its
//! worktrees by branch, and for each worktree the app processes started in it.

use vstd::prelude::*;
use crate::host::Timestamp;
use crate::table::Table;

verus! {

/// A started app process.
pub struct AppState {
    pub pid: u32,
    pub url: String,
    pub log_path: String,
    pub started_at: Timestamp,
    pub command: String,
}

/// A tracked worktree.
pub struct WorktreeState {
    pub path: String,
    pub branch: String,
    pub created_at: Timestamp,
    pub apps: Table<AppState>,
}

/// A tracked repository.
pub struct RepoState {
    pub path: String,
    pub worktrees: Table<WorktreeState>,
}

/// Everything devtree tracks, by repository key.
pub struct State {
    pub repos: Table<RepoState>,
}

/// Model of an [`AppState`].
pub struct AppView {
    pub pid: u32,
    pub url: Seq<char>,
    pub log_path: Seq<char>,
    pub started_at: Timestamp,
    pub command: Seq<char>,
}

/// Model of a [`WorktreeState`].
pub struct WorktreeView {
    pub path: Seq<char>,
    pub branch: Seq<char>,
    pub created_at: Timestamp,
    pub apps: Map<Seq<char>, AppView>,
}

/// Model of a [`RepoState`].
pub struct RepoView {
    pub path: Seq<char>,
    pub worktrees: Map<Seq<char>, WorktreeView>,
}

impl View for AppState {
    type V = AppView;

    open spec fn view(&self) -> AppView {
        AppView {
            pid: self.pid,
            url: self.url@,
            log_path: self.log_path@,
            started_at: self.started_at,
            command: self.command@,
        }
    }
}

impl View for WorktreeState {
    type V = WorktreeView;

    open spec fn view(&self) -> WorktreeView {
        WorktreeView {
            path: self.path@,
            branch: self.branch@,
            created_at: self.created_at,
            apps: self.apps@.map_values(|a: AppState| a@),
        }
    }
}

impl View for RepoState {
    type V = RepoView;

    open spec fn view(&self) -> RepoView {
        RepoView { path: self.path@, worktrees: self.worktrees@.map_values(|w: WorktreeState| w@) }
    }
}

impl View for State {
    type V = Map<Seq<char>, RepoView>;

    open spec fn view(&self) -> Map<Seq<char>, RepoView> {
        self.repos@.map_values(|r: RepoState| r@)
    }
}

/// Whether `branch` has a tracked worktree in repository `key`.
pub open spec fn has_worktree(s: Map<Seq<char>, RepoView>, key: Seq<char>, branch: Seq<char>) -> bool {
    s.contains_key(key) && s[key].worktrees.contains_key(branch)
}

/// Whether `app` has a tracked process in worktree `branch` of repository `key`.
pub open spec fn has_app(s: Map<Seq<char>, RepoView>, key: Seq<char>, branch: Seq<char>, app: Seq<char>) -> bool {
    has_worktree(s, key, branch) && s[key].worktrees[branch].apps.contains_key(app)
}

/// `s` with worktree `branch` of repository `key` tracked: an entry that is
/// already there is kept as it is; otherwise the repository (at `root`) and
/// the worktree (at `path`, created at `created_at`, with no apps) are added.
pub open spec fn with_worktree(
    s: Map<Seq<char>, RepoView>,
    key: Seq<char>,
    root: Seq<char>,
    branch: Seq<char>,
    path: Seq<char>,
    created_at: Timestamp,
) -> Map<Seq<char>, RepoView> {
    let repo = if s.contains_key(key) {
        s[key]
    } else {
        RepoView { path: root, worktrees: Map::empty() }
    };
    let wt = if repo.worktrees.contains_key(branch) {
        repo.worktrees[branch]
    } else {
        WorktreeView { path, branch, created_at, apps: Map::empty() }
    };
    s.insert(key, RepoView { path: repo.path, worktrees: repo.worktrees.insert(branch, wt) })
}

/// `s` with worktree `branch` tracked as in [`with_worktree`] and app `app`
/// recorded in it as `a`, replacing any earlier record of that app.
pub open spec fn with_app(
    s: Map<Seq<char>, RepoView>,
    key: Seq<char>,
    root: Seq<char>,
    branch: Seq<char>,
    path: Seq<char>,
    created_at: Timestamp,
    app: Seq<char>,
    a: AppView,
) -> Map<Seq<char>, RepoView> {
    let s1 = with_worktree(s, key, root, branch, path, created_at);
    let repo = s1[key];
    let wt = repo.worktrees[branch];
    s1.insert(
        key,
        RepoView {
            path: repo.path,
            worktrees: repo.worktrees.insert(
                branch,
                WorktreeView { path: wt.path, branch: wt.branch, created_at: wt.created_at, apps: wt.apps.insert(app, a) },
            ),
        },
    )
}

/// `s` without the record of app `app` in worktree `branch` of repository `key`.
pub open spec fn without_app(s: Map<Seq<char>, RepoView>, key: Seq<char>, branch: Seq<char>, app: Seq<char>) -> Map<
    Seq<char>,
    RepoView,
> {
    if has_worktree(s, key, branch) {
        let repo = s[key];
        let wt = repo.worktrees[branch];
        s.insert(
            key,
            RepoView {
                path: repo.path,
                worktrees: repo.worktrees.insert(
                    branch,
                    WorktreeView { path: wt.path, branch: wt.branch, created_at: wt.created_at, apps: wt.apps.remove(app) },
                ),
            },
        )
    } else {
        s
    }
}

/// `s` without worktree `branch` of repository `key`.
pub open spec fn without_worktree(s: Map<Seq<char>, RepoView>, key: Seq<char>, branch: Seq<char>) -> Map<
    Seq<char>,
    RepoView,
> {
    if s.contains_key(key) {
        s.insert(key, RepoView { path: s[key].path, worktrees: s[key].worktrees.remove(branch) })
    } else {
        s
    }
}

/// Recording an app makes it tracked, with exactly the recorded process.
pub proof fn lemma_recorded_app_is_tracked(
    s: Map<Seq<char>, RepoView>,
    key: Seq<char>,
    root: Seq<char>,
    branch: Seq<char>,
    path: Seq<char>,
    created_at: Timestamp,
    app: Seq<char>,
    a: AppView,
)
    ensures
        has_app(with_app(s, key, root, branch, path, created_at, app, a), key, branch, app),
        with_app(s, key, root, branch, path, created_at, app, a)[key].worktrees[branch].apps[app] == a,
{
}

/// Tracking a worktree that is already tracked changes nothing: its path,
/// creation time and apps are kept.
pub proof fn lemma_tracking_again_keeps_worktree(
    s: Map<Seq<char>, RepoView>,
    key: Seq<char>,
    root: Seq<char>,
    branch: Seq<char>,
    path: Seq<char>,
    created_at: Timestamp,
)
    requires
        has_worktree(s, key, branch),
    ensures
        with_worktree(s, key, root, branch, path, created_at) == s,
{
    assert(s[key].worktrees.insert(branch, s[key].worktrees[branch]) =~= s[key].worktrees);
    assert(s.insert(key, RepoView { path: s[key].path, worktrees: s[key].worktrees }) =~= s);
}

/// Tracking a worktree makes it tracked; doing it twice is the same as once.
pub proof fn lemma_tracking_worktree_idempotent(
    s: Map<Seq<char>, RepoView>,
    key: Seq<char>,
    root: Seq<char>,
    branch: Seq<char>,
    path: Seq<char>,
    created_at: Timestamp,
    root2: Seq<char>,
    path2: Seq<char>,
    created_at2: Timestamp,
)
    ensures
        has_worktree(with_worktree(s, key, root, branch, path, created_at), key, branch),
        with_worktree(with_worktree(s, key, root, branch, path, created_at), key, root2, branch, path2, created_at2)
            == with_worktree(s, key, root, branch, path, created_at),
{
    lemma_tracking_again_keeps_worktree(with_worktree(s, key, root, branch, path, created_at), key, root2, branch,
        path2, created_at2);
}

/// Forgetting an app untracks exactly that app: its worktree stays tracked
/// and every other app of it keeps its record.
pub proof fn lemma_forgetting_app(s: Map<Seq<char>, RepoView>, key: Seq<char>, branch: Seq<char>, app: Seq<char>, other: Seq<char>)
    requires
        has_worktree(s, key, branch),
        other != app,
    ensures
        !has_app(without_app(s, key, branch, app), key, branch, app),
        has_worktree(without_app(s, key, branch, app), key, branch),
        has_app(without_app(s, key, branch, app), key, branch, other) == has_app(s, key, branch, other),
        has_app(s, key, branch, other) ==> without_app(s, key, branch, app)[key].worktrees[branch].apps[other]
            == s[key].worktrees[branch].apps[other],
{
}

/// Stopping an app right after starting it leaves the same apps as before the
/// start, apart from that app (the worktree, if new, stays tracked).
pub proof fn lemma_start_then_stop(
    s: Map<Seq<char>, RepoView>,
    key: Seq<char>,
    root: Seq<char>,
    branch: Seq<char>,
    path: Seq<char>,
    created_at: Timestamp,
    app: Seq<char>,
    a: AppView,
)
    ensures
        without_app(with_app(s, key, root, branch, path, created_at, app, a), key, branch, app) == without_app(
            with_worktree(s, key, root, branch, path, created_at),
            key,
            branch,
            app,
        ),
{
    let s1 = with_worktree(s, key, root, branch, path, created_at);
    let wt = s1[key].worktrees[branch];
    assert(wt.apps.insert(app, a).remove(app) =~= wt.apps.remove(app));
    let left = without_app(with_app(s, key, root, branch, path, created_at, app, a), key, branch, app);
    let right = without_app(s1, key, branch, app);
    assert(left[key].worktrees =~= right[key].worktrees);
    assert(left =~= right);
}

/// Forgetting a worktree untracks it, with all its apps, and leaves the other
/// worktrees of the repository as they were.
pub proof fn lemma_forgetting_worktree(s: Map<Seq<char>, RepoView>, key: Seq<char>, branch: Seq<char>, other: Seq<char>)
    requires
        other != branch,
    ensures
        !has_worktree(without_worktree(s, key, branch), key, branch),
        has_worktree(without_worktree(s, key, branch), key, other) == has_worktree(s, key, other),
        has_worktree(s, key, other) ==> without_worktree(s, key, branch)[key].worktrees[other] == s[key].worktrees[other],
{
}

/// Tracking a worktree for one branch leaves every other worktree of the
/// repository as it was: tracked exactly when it was before, with the same
/// record. A branch not tracked before gets the given path and creation time
/// and no apps; the repository keeps its recorded path when it had one.
pub proof fn law_tracking_keeps_other_worktrees(
    s: Map<Seq<char>, RepoView>,
    key: Seq<char>,
    root: Seq<char>,
    branch: Seq<char>,
    path: Seq<char>,
    created_at: Timestamp,
    other: Seq<char>,
)
    requires
        other != branch,
    ensures
        has_worktree(with_worktree(s, key, root, branch, path, created_at), key, branch),
        has_worktree(with_worktree(s, key, root, branch, path, created_at), key, other) == has_worktree(s, key, other),
        has_worktree(s, key, other) ==> with_worktree(s, key, root, branch, path, created_at)[key].worktrees[other]
            == s[key].worktrees[other],
        !has_worktree(s, key, branch) ==> with_worktree(s, key, root, branch, path, created_at)[key].worktrees[branch]
            == (WorktreeView { path, branch, created_at, apps: Map::empty() }),
        s.contains_key(key) ==> with_worktree(s, key, root, branch, path, created_at)[key].path == s[key].path,
{
}

/// Recording an app leaves every other tracked worktree of the repository,
/// and every other app of its worktree, as they were.
pub proof fn law_recording_app_keeps_the_rest(
    s: Map<Seq<char>, RepoView>,
    key: Seq<char>,
    root: Seq<char>,
    branch: Seq<char>,
    path: Seq<char>,
    created_at: Timestamp,
    app: Seq<char>,
    a: AppView,
    other: Seq<char>,
    other_app: Seq<char>,
)
    requires
        other != branch,
        other_app != app,
    ensures
        has_worktree(with_app(s, key, root, branch, path, created_at, app, a), key, other) == has_worktree(s, key, other),
        has_worktree(s, key, other) ==> with_app(s, key, root, branch, path, created_at, app, a)[key].worktrees[other]
            == s[key].worktrees[other],
        has_app(with_app(s, key, root, branch, path, created_at, app, a), key, branch, other_app) == has_app(
            s,
            key,
            branch,
            other_app,
        ),
        has_app(s, key, branch, other_app) ==> with_app(s, key, root, branch, path, created_at, app, a)[key].worktrees[
            branch].apps[other_app] == s[key].worktrees[branch].apps[other_app],
{
}

/// Every change made for one repository leaves the others as they were.
pub proof fn lemma_other_repos_untouched(
    s: Map<Seq<char>, RepoView>,
    key: Seq<char>,
    root: Seq<char>,
    branch: Seq<char>,
    path: Seq<char>,
    created_at: Timestamp,
    app: Seq<char>,
    a: AppView,
    other: Seq<char>,
)
    requires
        other != key,
    ensures
        with_worktree(s, key, root, branch, path, created_at).contains_key(other) == s.contains_key(other),
        with_app(s, key, root, branch, path, created_at, app, a).contains_key(other) == s.contains_key(other),
        without_app(s, key, branch, app).contains_key(other) == s.contains_key(other),
        without_worktree(s, key, branch).contains_key(other) == s.contains_key(other),
        s.contains_key(other) ==> {
            &&& with_worktree(s, key, root, branch, path, created_at)[other] == s[other]
            &&& with_app(s, key, root, branch, path, created_at, app, a)[other] == s[other]
            &&& without_app(s, key, branch, app)[other] == s[other]
            &&& without_worktree(s, key, branch)[other] == s[other]
        },
{
}

impl WorktreeState {
    /// A newly tracked worktree with no apps.
    pub fn new(path: &str, branch: &str, created_at: Timestamp) -> (w: Self)
        ensures
            w@ == (WorktreeView { path: path@, branch: branch@, created_at, apps: Map::empty() }),
    {
        let w = WorktreeState {
            path: path.to_owned(),
            branch: branch.to_owned(),
            created_at,
            apps: Table::new(),
        };
        assert(w@.apps =~= Map::<Seq<char>, AppView>::empty());
        w
    }
}

impl RepoState {
    /// A newly tracked repository with no worktrees.
    pub fn new(path: &str) -> (r: Self)
        ensures
            r@ == (RepoView { path: path@, worktrees: Map::empty() }),
    {
        let r = RepoState { path: path.to_owned(), worktrees: Table::new() };
        assert(r@.worktrees =~= Map::<Seq<char>, WorktreeView>::empty());
        r
    }
}

impl State {
    /// Nothing tracked.
    pub fn new() -> (s: Self)
        ensures
            s@ == Map::<Seq<char>, RepoView>::empty(),
    {
        let s = State { repos: Table::new() };
        assert(s@ =~= Map::<Seq<char>, RepoView>::empty());
        s
    }

    /// The tracked worktree `branch` of repository `key`, if any.
    pub fn worktree(&self, key: &str, branch: &str) -> (r: Option<&WorktreeState>)
        ensures
            r is Some <==> has_worktree(self@, key@, branch@),
            r matches Some(w) ==> w@ == self@[key@].worktrees[branch@],
    {
        match self.repos.get(key) {
            Some(repo) => repo.worktrees.get(branch),
            None => None,
        }
    }

    /// The tracked process of `app` in worktree `branch` of repository `key`, if any.
    pub fn app(&self, key: &str, branch: &str, app: &str) -> (r: Option<&AppState>)
        ensures
            r is Some <==> has_app(self@, key@, branch@, app@),
            r matches Some(a) ==> a@ == self@[key@].worktrees[branch@].apps[app@],
    {
        match self.worktree(key, branch) {
            Some(w) => w.apps.get(app),
            None => None,
        }
    }

    /// Takes repository `key` out, or makes a new empty one at `root`.
    fn take_repo(&mut self, key: &str, root: &str) -> (r: RepoState)
        ensures
            final(self)@ == old(self)@.remove(key@),
            r@ == (if old(self)@.contains_key(key@) {
                old(self)@[key@]
            } else {
                RepoView { path: root@, worktrees: Map::empty() }
            }),
    {
        let taken = self.repos.remove(key);
        assert(self@ =~= old(self)@.remove(key@));
        match taken {
            Some(r) => r,
            None => RepoState::new(root),
        }
    }

    /// Puts repository `repo` back under `key`.
    fn put_repo(&mut self, key: &str, repo: RepoState)
        ensures
            final(self)@ == old(self)@.insert(key@, repo@),
    {
        self.repos.insert(key.to_owned(), repo);
        assert(self@ =~= old(self)@.insert(key@, repo@));
    }

    /// Tracks worktree `branch` of repository `key` unless it is tracked already.
    pub fn record_worktree_at(
        &mut self,
        key: &str,
        root: &str,
        branch: &str,
        path: &str,
        created_at: Timestamp,
    )
        ensures
            final(self)@ == with_worktree(old(self)@, key@, root@, branch@, path@, created_at),
    {
        let mut repo = self.take_repo(key, root);
        let ghost r0 = repo@;
        if !repo.worktrees.contains_key(branch) {
            repo.worktrees.insert(branch.to_owned(), WorktreeState::new(path, branch, created_at));
            assert(repo@.worktrees =~= r0.worktrees.insert(
                branch@,
                WorktreeView { path: path@, branch: branch@, created_at, apps: Map::empty() },
            ));
        } else {
            assert(r0.worktrees.insert(branch@, r0.worktrees[branch@]) =~= r0.worktrees);
        }
        self.put_repo(key, repo);
        assert(self@ =~= with_worktree(old(self)@, key@, root@, branch@, path@, created_at));
    }

    /// Records `state` as the process of `app` in worktree `branch` of
    /// repository `key`, tracking the worktree first if needed.
    pub fn record_app_at(
        &mut self,
        key: &str,
        root: &str,
        branch: &str,
        path: &str,
        created_at: Timestamp,
        app: &str,
        state: AppState,
    )
        ensures
            final(self)@ == with_app(old(self)@, key@, root@, branch@, path@, created_at, app@, state@),
    {
        let ghost s0 = self@;
        self.record_worktree_at(key, root, branch, path, created_at);
        let ghost s1 = self@;
        let mut repo = self.take_repo(key, root);
        let ghost r1 = repo@;
        assert(s1.contains_key(key@));
        assert(r1 == s1[key@]);
        assert(r1.worktrees.contains_key(branch@));
        assert(repo.worktrees@.contains_key(branch@));
        let mut wt = match repo.worktrees.remove(branch) {
            Some(w) => w,
            None => WorktreeState::new(path, branch, created_at),
        };
        let ghost w1 = wt@;
        assert(w1 == s1[key@].worktrees[branch@]);
        wt.apps.insert(app.to_owned(), state);
        assert(wt@.apps =~= w1.apps.insert(app@, state@));
        let ghost w2 = wt@;
        repo.worktrees.insert(branch.to_owned(), wt);
        assert(repo@.worktrees =~= r1.worktrees.insert(branch@, w2));
        self.put_repo(key, repo);
        assert(self@ =~= with_app(s0, key@, root@, branch@, path@, created_at, app@, state@));
    }

    /// Drops the record of `app` in worktree `branch` of repository `key`.
    pub fn forget_app(&mut self, key: &str, branch: &str, app: &str)
        ensures
            final(self)@ == without_app(old(self)@, key@, branch@, app@),
    {
        if self.worktree(key, branch).is_some() {
            let ghost s0 = self@;
            let mut repo = self.take_repo(key, "");
            let ghost r0 = repo@;
            let mut wt = match repo.worktrees.remove(branch) {
                Some(w) => w,
                None => WorktreeState::new("", branch, Timestamp { secs: 0, nanos: 0 }),
            };
            let ghost w0 = wt@;
            wt.apps.remove(app);
            assert(wt@.apps =~= w0.apps.remove(app@));
            let ghost w1 = wt@;
            repo.worktrees.insert(branch.to_owned(), wt);
            assert(repo@.worktrees =~= r0.worktrees.insert(branch@, w1));
            self.put_repo(key, repo);
            assert(self@ =~= without_app(s0, key@, branch@, app@));
        }
    }

    /// Stops tracking worktree `branch` of repository `key`.
    pub fn forget_worktree(&mut self, key: &str, branch: &str)
        ensures
            final(self)@ == without_worktree(old(self)@, key@, branch@),
    {
        if self.repos.contains_key(key) {
            let ghost s0 = self@;
            let mut repo = self.take_repo(key, "");
            let ghost r0 = repo@;
            repo.worktrees.remove(branch);
            assert(repo@.worktrees =~= r0.worktrees.remove(branch@));
            self.put_repo(key, repo);
            assert(self@ =~= without_worktree(s0, key@, branch@));
        }
    }
}

} // verus!
