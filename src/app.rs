//! Application state: the run list, its tree projection, the cursor, the
//! expansion sets, overlays and caches. Every change goes through a method
//! here, and each method leaves the tree and the cursor consistent.
use vstd::prelude::*;

use crate::model::{
    ActiveOverlay, AppConfig, Conclusion, ConfirmAction, ConfirmOverlay, DetailOverlay,
    FailedLog, FilterMode, Job, LogCacheEntry, LogOverlay, Notification, ResolvedItem, RunStatus,
    SnapshotEntry, TreeItem, TreeLevel, WorkflowRun, ERROR_TTL_SECS, LOG_CACHE_TTL_SECS,
    LOG_MAX_LINES, NOTIFICATION_TTL_SECS, SPINNER_FRAME_COUNT,
};
use crate::text::{
    concat, decimal, join_lines, join_spec, lines_of, split_lines, tail_lines, tail_spec, texts,
    u64_text,
};

verus! {

/// Whether a run passes the filter.
pub open spec fn run_visible(filter: FilterMode, branch: Option<String>, r: WorkflowRun) -> bool {
    match filter {
        FilterMode::All => true,
        FilterMode::ActiveOnly => r.status.is_active_spec(),
        FilterMode::CurrentBranch => branch is Some && r.head_branch@ == branch->0@,
    }
}

pub open spec fn run_row(run_idx: int, expanded: bool) -> TreeItem {
    TreeItem {
        level: TreeLevel::Run,
        run_idx: run_idx as usize,
        job_idx: None,
        step_idx: None,
        expanded,
    }
}

pub open spec fn loading_row(run_idx: int) -> TreeItem {
    TreeItem {
        level: TreeLevel::Loading,
        run_idx: run_idx as usize,
        job_idx: None,
        step_idx: None,
        expanded: false,
    }
}

pub open spec fn job_row(run_idx: int, job_idx: int, expanded: bool) -> TreeItem {
    TreeItem {
        level: TreeLevel::Job,
        run_idx: run_idx as usize,
        job_idx: Some(job_idx as usize),
        step_idx: None,
        expanded,
    }
}

pub open spec fn step_row(run_idx: int, job_idx: int, step_idx: int) -> TreeItem {
    TreeItem {
        level: TreeLevel::Step,
        run_idx: run_idx as usize,
        job_idx: Some(job_idx as usize),
        step_idx: Some(step_idx as usize),
        expanded: false,
    }
}

/// The rows of the first `n` steps of a job.
pub open spec fn step_rows(run_idx: int, job_idx: int, n: int) -> Seq<TreeItem>
    decreases n,
{
    if n <= 0 {
        seq![]
    } else {
        step_rows(run_idx, job_idx, n - 1).push(step_row(run_idx, job_idx, n - 1))
    }
}

/// The single owner of all mutable UI and domain state.
pub struct AppState {
    pub config: AppConfig,
    pub runs: Vec<WorkflowRun>,
    /// Last status seen per run id, kept across polls for change detection.
    pub previous_snapshot: Vec<(u64, SnapshotEntry)>,
    pub poll_count: u64,
    pub tree_items: Vec<TreeItem>,
    pub cursor: usize,
    pub expanded_runs: Vec<u64>,
    pub expanded_jobs: Vec<(u64, u64)>,
    pub filter: FilterMode,
    /// Time of the last successful poll, in seconds.
    pub last_poll: Option<u64>,
    pub next_poll_in: u64,
    pub poll_interval: u64,
    pub notifications: Vec<Notification>,
    /// The global error toast and the time it was raised, in seconds.
    pub error: Option<(String, u64)>,
    pub spinner_frame: usize,
    pub loading_count: u16,
    pub should_quit: bool,
    pub log_cache: Vec<LogCacheEntry>,
    pub overlay: ActiveOverlay,
    /// Sticky per-run errors, such as a failed job fetch.
    pub run_errors: Vec<(u64, String)>,
    pub desktop_notify: bool,
}

/// Whether `v` holds `x`.
pub fn contains_id(v: &Vec<u64>, x: u64) -> (r: bool)
    ensures
        r == v@.contains(x),
{
    let mut i: usize = 0;
    while i < v.len()
        invariant
            i <= v@.len(),
            forall|k: int| 0 <= k < i ==> v@[k] != x,
        decreases v@.len() - i,
    {
        if v[i] == x {
            return true;
        }
        i = i + 1;
    }
    false
}

/// Whether `v` holds the pair `(a, b)`.
pub fn contains_pair(v: &Vec<(u64, u64)>, a: u64, b: u64) -> (r: bool)
    ensures
        r == v@.contains((a, b)),
{
    let mut i: usize = 0;
    while i < v.len()
        invariant
            i <= v@.len(),
            forall|k: int| 0 <= k < i ==> v@[k] != (a, b),
        decreases v@.len() - i,
    {
        let p = v[i];
        if p.0 == a && p.1 == b {
            return true;
        }
        i = i + 1;
    }
    false
}

/// `new` holds what `old` holds, and `x`.
pub open spec fn seq_set_insert<A>(old: Seq<A>, new: Seq<A>, x: A) -> bool {
    forall|y: A| #[trigger] new.contains(y) <==> (old.contains(y) || y == x)
}

/// `new` holds what `old` holds, but `x`.
pub open spec fn seq_set_remove<A>(old: Seq<A>, new: Seq<A>, x: A) -> bool {
    forall|y: A| #[trigger] new.contains(y) <==> (old.contains(y) && y != x)
}

/// `new` holds the pairs of `old` whose run is not `run_id`.
pub open spec fn pairs_without_run(old: Seq<(u64, u64)>, new: Seq<(u64, u64)>, run_id: u64) -> bool {
    forall|p: (u64, u64)| #[trigger] new.contains(p) <==> (old.contains(p) && p.0 != run_id)
}

/// The number of run rows among the first `i` rows.
pub open spec fn run_count(items: Seq<TreeItem>, i: int) -> nat
    decreases i,
{
    if i <= 0 {
        0
    } else {
        run_count(items, i - 1) + if items[i - 1].level == TreeLevel::Run {
            1nat
        } else {
            0nat
        }
    }
}

/// Row `i` is the `n`-th run row (counting from 1).
pub open spec fn is_nth_run_row(items: Seq<TreeItem>, i: int, n: int) -> bool {
    &&& 0 <= i < items.len()
    &&& items[i].level == TreeLevel::Run
    &&& run_count(items, i) + 1 == n
}

/// Pushing `x` adds `x` and keeps the rest.
pub proof fn lemma_push_insert<A>(s: Seq<A>, x: A)
    ensures
        seq_set_insert(s, s.push(x), x),
{
    assert forall|y: A| #[trigger] s.push(x).contains(y) <==> (s.contains(y) || y == x) by {
        if s.push(x).contains(y) {
            let k = choose|k: int| 0 <= k < s.push(x).len() && s.push(x)[k] == y;
            if k < s.len() {
                assert(s[k] == y);
            }
        }
        if s.contains(y) {
            let k = choose|k: int| 0 <= k < s.len() && s[k] == y;
            assert(s.push(x)[k] == y);
        }
        if y == x {
            assert(s.push(x)[s.len() as int] == y);
        }
    }
}

/// `run_index` is -1 or the index of a run with that id.
pub proof fn lemma_run_index_bounds(runs: Seq<WorkflowRun>, run_id: u64)
    ensures
        -1 <= run_index(runs, run_id) < runs.len(),
        run_index(runs, run_id) >= 0 ==> runs[run_index(runs, run_id)].database_id == run_id,
        run_index(runs, run_id) == -1 ==> forall|k: int| 0 <= k < runs.len() ==> (#[trigger] runs[k]).database_id != run_id,
    decreases runs.len(),
{
    if runs.len() > 0 {
        lemma_run_index_bounds(runs.drop_last(), run_id);
        if run_index(runs, run_id) == -1 {
            assert forall|k: int| 0 <= k < runs.len() implies (#[trigger] runs[k]).database_id != run_id by {
                if k < runs.len() - 1 {
                    assert(runs.drop_last()[k] == runs[k]);
                }
            }
        }
    }
}

/// A run found in a prefix is found at the same index in the whole list.
pub proof fn lemma_run_index_prefix(runs: Seq<WorkflowRun>, n: int, run_id: u64)
    requires
        0 < n <= runs.len(),
        run_index(runs.subrange(0, n - 1), run_id) == -1,
        runs[n - 1].database_id == run_id,
    ensures
        run_index(runs, run_id) == n - 1,
    decreases runs.len(),
{
    assert(runs.subrange(0, n).drop_last() =~= runs.subrange(0, n - 1));
    assert(run_index(runs.subrange(0, n), run_id) == n - 1);
    if runs.len() > n {
        assert(runs.drop_last().subrange(0, n - 1) =~= runs.subrange(0, n - 1));
        assert(runs.drop_last().subrange(0, n) =~= runs.subrange(0, n));
        lemma_run_index_prefix(runs.drop_last(), n, run_id);
    } else {
        assert(runs.subrange(0, n) =~= runs);
    }
}

/// What a filter keeps is what it held and passes.
pub proof fn lemma_filter_contains_iff<A>(s: Seq<A>, pred: spec_fn(A) -> bool, y: A)
    ensures
        s.filter(pred).contains(y) <==> (s.contains(y) && pred(y)),
{
    broadcast use vstd::seq_lib::group_filter_ensures;
    if s.filter(pred).contains(y) {
        let k = choose|k: int| 0 <= k < s.filter(pred).len() && s.filter(pred)[k] == y;
        s.lemma_filter_pred(pred, k);
        lemma_filter_subset(s, pred, k);
    }
    if s.contains(y) && pred(y) {
        let k = choose|k: int| 0 <= k < s.len() && s[k] == y;
        s.lemma_filter_contains(pred, k);
    }
}

/// Every element that a filter keeps was in the sequence.
pub proof fn lemma_filter_subset<A>(s: Seq<A>, pred: spec_fn(A) -> bool, k: int)
    requires
        0 <= k < s.filter(pred).len(),
    ensures
        s.contains(s.filter(pred)[k]),
    decreases s.len(),
{
    reveal(Seq::filter);
    if s.len() > 0 {
        let sub = s.drop_last().filter(pred);
        if k < sub.len() {
            lemma_filter_subset(s.drop_last(), pred, k);
            let j = choose|j: int| 0 <= j < s.drop_last().len() && s.drop_last()[j] == sub[k];
            assert(s[j] == s.filter(pred)[k]);
        } else {
            assert(s[s.len() - 1] == s.filter(pred)[k]);
        }
    }
}

pub open spec fn ne_id(x: u64) -> spec_fn(u64) -> bool {
    |y: u64| y != x
}

pub open spec fn other_run(run_id: u64) -> spec_fn((u64, u64)) -> bool {
    |p: (u64, u64)| p.0 != run_id
}

pub open spec fn ne_pair(a: u64, b: u64) -> spec_fn((u64, u64)) -> bool {
    |p: (u64, u64)| p != (a, b)
}

/// The elements of `v` for which `keep` holds, in order.
pub(crate) fn retain_where<T, P>(v: Vec<T>, param: &P, keep: impl Fn(&T, &P) -> bool, Ghost(pred): Ghost<spec_fn(T) -> bool>) -> (r: Vec<T>)
    requires
        forall|x: &T| #[trigger] keep.requires((x, param)),
        forall|x: &T, b: bool| keep.ensures((x, param), b) ==> b == pred(*x),
    ensures
        r@ == v@.filter(pred),
{
    let ghost orig = v@;
    let n = v.len();
    let mut rest = v;
    let mut out: Vec<T> = Vec::new();
    let mut k: usize = 0;
    while rest.len() > 0
        invariant
            k <= orig.len(),
            orig.len() == n,
            k + rest@.len() == orig.len(),
            rest@ == orig.subrange(k as int, orig.len() as int),
            out@ == orig.subrange(0, k as int).filter(pred),
            forall|x: &T| #[trigger] keep.requires((x, param)),
            forall|x: &T, b: bool| keep.ensures((x, param), b) ==> b == pred(*x),
        decreases rest@.len(),
    {
        let e = rest.remove(0);
        let b = keep(&e, param);
        proof {
            let sub = orig.subrange(0, k + 1);
            assert(sub.drop_last() =~= orig.subrange(0, k as int));
            assert(sub.last() == e);
            assert(sub.filter(pred) == if pred(e) {
                out@.push(e)
            } else {
                out@
            }) by {
                reveal(Seq::filter);
            }
        }
        if b {
            out.push(e);
        }
        k = k + 1;
        assert(rest@ =~= orig.subrange(k as int, orig.len() as int));
    }
    assert(orig.subrange(0, k as int) =~= orig);
    out
}

/// `v` without any `x`.
fn without_id(v: &Vec<u64>, x: u64) -> (r: Vec<u64>)
    ensures
        r@ == v@.filter(ne_id(x)),
        seq_set_remove(v@, r@, x),
{
    let ghost pred = ne_id(x);
    let mut out: Vec<u64> = Vec::new();
    let mut i: usize = 0;
    while i < v.len()
        invariant
            i <= v@.len(),
            out@ == v@.subrange(0, i as int).filter(pred),
            pred == ne_id(x),
        decreases v@.len() - i,
    {
        proof {
            let sub = v@.subrange(0, i + 1);
            assert(sub.drop_last() =~= v@.subrange(0, i as int));
            assert(sub.last() == v@[i as int]);
            assert(sub.filter(pred) == if pred(v@[i as int]) {
                out@.push(v@[i as int])
            } else {
                out@
            }) by {
                reveal(Seq::filter);
            }
        }
        if v[i] != x {
            out.push(v[i]);
        }
        i = i + 1;
    }
    assert(v@.subrange(0, v@.len() as int) =~= v@);
    assert forall|y: u64| #[trigger] out@.contains(y) <==> (v@.contains(y) && y != x) by {
        lemma_filter_contains_iff(v@, pred, y);
    }
    out
}

/// `v` without the pairs whose first element is `run_id`.
fn without_run_pairs(v: &Vec<(u64, u64)>, run_id: u64) -> (r: Vec<(u64, u64)>)
    ensures
        pairs_without_run(v@, r@, run_id),
{
    let ghost pred = other_run(run_id);
    let mut out: Vec<(u64, u64)> = Vec::new();
    let mut i: usize = 0;
    while i < v.len()
        invariant
            i <= v@.len(),
            out@ == v@.subrange(0, i as int).filter(pred),
            pred == other_run(run_id),
        decreases v@.len() - i,
    {
        proof {
            let sub = v@.subrange(0, i + 1);
            assert(sub.drop_last() =~= v@.subrange(0, i as int));
            assert(sub.last() == v@[i as int]);
            assert(sub.filter(pred) == if pred(v@[i as int]) {
                out@.push(v@[i as int])
            } else {
                out@
            }) by {
                reveal(Seq::filter);
            }
        }
        let q = v[i];
        if q.0 != run_id {
            out.push(q);
        }
        i = i + 1;
    }
    assert(v@.subrange(0, v@.len() as int) =~= v@);
    assert forall|p: (u64, u64)| #[trigger] out@.contains(p) <==> (v@.contains(p) && p.0 != run_id) by {
        lemma_filter_contains_iff(v@, pred, p);
    }
    out
}

/// `v` without the pair `(a, b)`.
fn without_pair(v: &Vec<(u64, u64)>, a: u64, b: u64) -> (r: Vec<(u64, u64)>)
    ensures
        seq_set_remove(v@, r@, (a, b)),
{
    let ghost pred = ne_pair(a, b);
    let mut out: Vec<(u64, u64)> = Vec::new();
    let mut i: usize = 0;
    while i < v.len()
        invariant
            i <= v@.len(),
            out@ == v@.subrange(0, i as int).filter(pred),
            pred == ne_pair(a, b),
        decreases v@.len() - i,
    {
        proof {
            let sub = v@.subrange(0, i + 1);
            assert(sub.drop_last() =~= v@.subrange(0, i as int));
            assert(sub.last() == v@[i as int]);
            assert(sub.filter(pred) == if pred(v@[i as int]) {
                out@.push(v@[i as int])
            } else {
                out@
            }) by {
                reveal(Seq::filter);
            }
        }
        let q = v[i];
        if !(q.0 == a && q.1 == b) {
            out.push(q);
        }
        i = i + 1;
    }
    assert(v@.subrange(0, v@.len() as int) =~= v@);
    assert forall|p: (u64, u64)| #[trigger] out@.contains(p) <==> (v@.contains(p) && p != (a, b)) by {
        lemma_filter_contains_iff(v@, pred, p);
    }
    out
}

impl AppState {
    /// The rows of one job: the job itself, then its steps if it is expanded.
    /// A job without an id yet has no row.
    pub open spec fn job_block(&self, run_idx: int, job_idx: int) -> Seq<TreeItem> {
        let run = self.runs@[run_idx];
        let job = run.jobs->0@[job_idx];
        match job.database_id {
            None => seq![],
            Some(jid) => if self.expanded_jobs@.contains((run.database_id, jid)) {
                seq![job_row(run_idx, job_idx, true)] + step_rows(
                    run_idx,
                    job_idx,
                    job.steps@.len() as int,
                )
            } else {
                seq![job_row(run_idx, job_idx, false)]
            },
        }
    }

    /// The rows of the first `n` jobs of a run.
    pub open spec fn job_rows(&self, run_idx: int, n: int) -> Seq<TreeItem>
        decreases n,
    {
        if n <= 0 {
            seq![]
        } else {
            self.job_rows(run_idx, n - 1) + self.job_block(run_idx, n - 1)
        }
    }

    /// The rows of one run: none if filtered out; the run row; and, when it
    /// is expanded, its job rows, or a loading row if its jobs are unfetched
    /// or none of them has an id yet.
    pub open spec fn run_block(&self, run_idx: int) -> Seq<TreeItem> {
        let run = self.runs@[run_idx];
        if !run_visible(self.filter, self.config.branch, run) {
            seq![]
        } else if !self.expanded_runs@.contains(run.database_id) {
            seq![run_row(run_idx, false)]
        } else {
            match run.jobs {
                None => seq![run_row(run_idx, true), loading_row(run_idx)],
                Some(jobs) => {
                    let jr = self.job_rows(run_idx, jobs@.len() as int);
                    if jr.len() == 0 && jobs@.len() > 0 {
                        seq![run_row(run_idx, true), loading_row(run_idx)]
                    } else {
                        seq![run_row(run_idx, true)] + jr
                    }
                },
            }
        }
    }

    /// The rows of the first `n` runs.
    pub open spec fn rows_upto(&self, n: int) -> Seq<TreeItem>
        decreases n,
    {
        if n <= 0 {
            seq![]
        } else {
            self.rows_upto(n - 1) + self.run_block(n - 1)
        }
    }

    /// The tree that the current runs, filter and expansion sets project to.
    pub open spec fn tree_spec(&self) -> Seq<TreeItem> {
        self.rows_upto(self.runs@.len() as int)
    }

    /// A row points at a live run, job or step.
    pub open spec fn item_resolves(&self, it: TreeItem) -> bool {
        &&& it.run_idx < self.runs@.len()
        &&& match it.level {
            TreeLevel::Run | TreeLevel::Loading => it.job_idx is None && it.step_idx is None,
            TreeLevel::Job => {
                &&& it.job_idx is Some
                &&& it.step_idx is None
                &&& self.runs@[it.run_idx as int].jobs is Some
                &&& it.job_idx->0 < self.runs@[it.run_idx as int].jobs->0@.len()
            },
            TreeLevel::Step => {
                &&& it.job_idx is Some
                &&& it.step_idx is Some
                &&& self.runs@[it.run_idx as int].jobs is Some
                &&& it.job_idx->0 < self.runs@[it.run_idx as int].jobs->0@.len()
                &&& it.step_idx->0 < self.runs@[it.run_idx as int].jobs->0@[it.job_idx->0 as int].steps@.len()
            },
        }
    }

    /// Every row resolves.
    pub open spec fn rows_resolve(&self) -> bool {
        forall|k: int| 0 <= k < self.tree_items@.len() ==> self.item_resolves(#[trigger] self.tree_items@[k])
    }

    /// The cursor is on a row, or 0 when there is none.
    pub open spec fn cursor_ok(&self) -> bool {
        if self.tree_items@.len() == 0 {
            self.cursor == 0
        } else {
            self.cursor < self.tree_items@.len()
        }
    }

    /// The tree is the projection of the current data, and the cursor is on it.
    pub open spec fn tree_consistent(&self) -> bool {
        &&& self.tree_items@ == self.tree_spec()
        &&& self.rows_resolve()
        &&& self.cursor_ok()
    }

    /// The fields that the tree projection reads.
    pub open spec fn same_tree_inputs(&self, o: &AppState) -> bool {
        &&& self.runs@ == o.runs@
        &&& self.filter == o.filter
        &&& self.config.branch == o.config.branch
        &&& self.expanded_runs@ == o.expanded_runs@
        &&& self.expanded_jobs@ == o.expanded_jobs@
    }

    pub fn new(
        repo: String,
        branch: Option<String>,
        limit: usize,
        workflow_filter: Option<String>,
    ) -> (r: Self)
        ensures
            r.config.repo == repo,
            r.config.branch == branch,
            r.config.limit == limit,
            r.config.workflow_filter == workflow_filter,
            r.config.version_string@ == Seq::<char>::empty(),
            r.runs@.len() == 0,
            r.previous_snapshot@.len() == 0,
            r.poll_count == 0,
            r.tree_items@.len() == 0,
            r.cursor == 0,
            r.expanded_runs@.len() == 0,
            r.expanded_jobs@.len() == 0,
            r.filter == FilterMode::All,
            r.last_poll is None,
            r.next_poll_in == 0,
            r.poll_interval == 10,
            r.notifications@.len() == 0,
            r.error is None,
            r.spinner_frame == 0,
            r.loading_count == 0,
            !r.should_quit,
            r.log_cache@.len() == 0,
            r.overlay is Closed,
            r.run_errors@.len() == 0,
            r.desktop_notify,
            r.tree_consistent(),
    {
        AppState {
            config: AppConfig {
                repo,
                branch,
                limit,
                workflow_filter,
                version_string: String::new(),
            },
            runs: Vec::new(),
            previous_snapshot: Vec::new(),
            poll_count: 0,
            tree_items: Vec::new(),
            cursor: 0,
            expanded_runs: Vec::new(),
            expanded_jobs: Vec::new(),
            filter: FilterMode::All,
            last_poll: None,
            next_poll_in: 0,
            poll_interval: 10,
            notifications: Vec::new(),
            error: None,
            spinner_frame: 0,
            loading_count: 0,
            should_quit: false,
            log_cache: Vec::new(),
            overlay: ActiveOverlay::Closed,
            run_errors: Vec::new(),
            desktop_notify: true,
        }
    }

    /// Whether the run passes the active filter.
    fn filter_predicate(&self, r: &WorkflowRun) -> (b: bool)
        ensures
            b == run_visible(self.filter, self.config.branch, *r),
    {
        match self.filter {
            FilterMode::All => true,
            FilterMode::ActiveOnly => r.status.is_active(),
            FilterMode::CurrentBranch => match &self.config.branch {
                Some(b) => r.head_branch == *b,
                None => false,
            },
        }
    }

    /// Appends the rows of the steps of one expanded job.
    fn push_step_rows(items: &mut Vec<TreeItem>, run_idx: usize, job_idx: usize, n: usize)
        ensures
            final(items)@ == old(items)@ + step_rows(run_idx as int, job_idx as int, n as int),
    {
        let ghost start = items@;
        let mut s: usize = 0;
        while s < n
            invariant
                s <= n,
                items@ == start + step_rows(run_idx as int, job_idx as int, s as int),
            decreases n - s,
        {
            items.push(
                TreeItem {
                    level: TreeLevel::Step,
                    run_idx,
                    job_idx: Some(job_idx),
                    step_idx: Some(s),
                    expanded: false,
                },
            );
            assert(items@ =~= start + step_rows(run_idx as int, job_idx as int, s + 1));
            s = s + 1;
        }
    }

    /// Recomputes `tree_items` from the runs, the filter and the expansion
    /// sets, then clamps the cursor onto the new rows.
    pub fn rebuild_tree(&mut self)
        ensures
            final(self).same_tree_inputs(old(self)),
            final(self).tree_items@ == old(self).tree_spec(),
            final(self).tree_consistent(),
            final(self).cursor == if final(self).tree_items@.len() == 0 {
                0
            } else if old(self).cursor < final(self).tree_items@.len() {
                old(self).cursor as int
            } else {
                final(self).tree_items@.len() - 1
            },
            final(self).previous_snapshot@ == old(self).previous_snapshot@,
            final(self).poll_count == old(self).poll_count,
            final(self).log_cache@ == old(self).log_cache@,
            final(self).run_errors@ == old(self).run_errors@,
            final(self).overlay == old(self).overlay,
            final(self).notifications@ == old(self).notifications@,
            final(self).error == old(self).error,
            final(self).same_extras(old(self)),
    {
        let mut items: Vec<TreeItem> = Vec::new();
        let mut run_idx: usize = 0;
        while run_idx < self.runs.len()
            invariant
                run_idx <= self.runs@.len(),
                items@ == self.rows_upto(run_idx as int),
                forall|k: int| 0 <= k < items@.len() ==> self.item_resolves(#[trigger] items@[k]),
            decreases self.runs@.len() - run_idx,
        {
            let ghost before_run = items@;
            let run = &self.runs[run_idx];
            if self.filter_predicate(run) {
                let run_id = run.database_id;
                let run_expanded = contains_id(&self.expanded_runs, run_id);
                items.push(
                    TreeItem {
                        level: TreeLevel::Run,
                        run_idx,
                        job_idx: None,
                        step_idx: None,
                        expanded: run_expanded,
                    },
                );
                if run_expanded {
                    match &run.jobs {
                        Some(jobs) => {
                            let items_before = items.len();
                            let mut job_idx: usize = 0;
                            while job_idx < jobs.len()
                                invariant
                                    run_idx < self.runs@.len(),
                                    run == self.runs@[run_idx as int],
                                    run.jobs == Some(*jobs),
                                    run_id == run.database_id,
                                    job_idx <= jobs@.len(),
                                    items_before == before_run.len() + 1,
                                    items@ == before_run + seq![run_row(run_idx as int, true)]
                                        + self.job_rows(run_idx as int, job_idx as int),
                                    forall|k: int|
                                        0 <= k < items@.len() ==> self.item_resolves(
                                            #[trigger] items@[k],
                                        ),
                                decreases jobs@.len() - job_idx,
                            {
                                let ghost before_job = items@;
                                let job = &jobs[job_idx];
                                match job.database_id {
                                    Some(jid) => {
                                        let job_expanded = contains_pair(
                                            &self.expanded_jobs,
                                            run_id,
                                            jid,
                                        );
                                        items.push(
                                            TreeItem {
                                                level: TreeLevel::Job,
                                                run_idx,
                                                job_idx: Some(job_idx),
                                                step_idx: None,
                                                expanded: job_expanded,
                                            },
                                        );
                                        if job_expanded {
                                            let ghost with_job = items@;
                                            Self::push_step_rows(
                                                &mut items,
                                                run_idx,
                                                job_idx,
                                                job.steps.len(),
                                            );
                                            assert forall|k: int|
                                                0 <= k < items@.len() implies self.item_resolves(
                                                #[trigger] items@[k],
                                            ) by {
                                                lemma_step_rows_len(
                                                    run_idx as int,
                                                    job_idx as int,
                                                    job.steps@.len() as int,
                                                );
                                                if k >= with_job.len() {
                                                    let m = k - with_job.len();
                                                    lemma_step_rows_index(
                                                        run_idx as int,
                                                        job_idx as int,
                                                        job.steps@.len() as int,
                                                        m,
                                                    );
                                                }
                                            }
                                        }
                                    },
                                    None => {},
                                }
                                assert(items@ =~= before_run + seq![run_row(run_idx as int, true)]
                                    + self.job_rows(run_idx as int, job_idx + 1));
                                job_idx = job_idx + 1;
                            }
                            if items.len() == items_before && jobs.len() > 0 {
                                items.push(
                                    TreeItem {
                                        level: TreeLevel::Loading,
                                        run_idx,
                                        job_idx: None,
                                        step_idx: None,
                                        expanded: false,
                                    },
                                );
                            }
                        },
                        None => {
                            items.push(
                                TreeItem {
                                    level: TreeLevel::Loading,
                                    run_idx,
                                    job_idx: None,
                                    step_idx: None,
                                    expanded: false,
                                },
                            );
                        },
                    }
                }
            }
            assert(items@ =~= self.rows_upto(run_idx + 1));
            run_idx = run_idx + 1;
        }
        let ghost pre = *self;
        self.tree_items = items;
        if self.cursor >= self.tree_items.len() && self.tree_items.len() > 0 {
            self.cursor = self.tree_items.len() - 1;
        } else if self.tree_items.len() == 0 {
            self.cursor = 0;
        }
        assert forall|k: int| 0 <= k < self.tree_items@.len() implies self.item_resolves(
            #[trigger] self.tree_items@[k],
        ) by {
            assert(pre.item_resolves(items@[k]));
        }
        proof {
            lemma_rows_congruent(self, &pre, self.runs@.len() as int);
        }
    }
}

/// The job rows depend only on the tree's inputs.
pub proof fn lemma_job_rows_congruent(a: &AppState, b: &AppState, run_idx: int, n: int)
    requires
        a.same_tree_inputs(b),
    ensures
        a.job_rows(run_idx, n) == b.job_rows(run_idx, n),
    decreases n,
{
    if n > 0 {
        lemma_job_rows_congruent(a, b, run_idx, n - 1);
    }
}

/// The tree projection depends only on the tree's inputs.
pub proof fn lemma_rows_congruent(a: &AppState, b: &AppState, n: int)
    requires
        a.same_tree_inputs(b),
    ensures
        a.rows_upto(n) == b.rows_upto(n),
    decreases n,
{
    if n > 0 {
        lemma_rows_congruent(a, b, n - 1);
        let run = a.runs@[n - 1];
        if run.jobs is Some {
            lemma_job_rows_congruent(a, b, n - 1, run.jobs->0@.len() as int);
        }
    }
}

/// There are `n` step rows for `n` steps.
pub proof fn lemma_step_rows_len(run_idx: int, job_idx: int, n: int)
    requires
        0 <= n,
    ensures
        step_rows(run_idx, job_idx, n).len() == n,
    decreases n,
{
    if n > 0 {
        lemma_step_rows_len(run_idx, job_idx, n - 1);
    }
}

/// The `m`-th of the first `n` step rows is the row of step `m`.
pub proof fn lemma_step_rows_index(run_idx: int, job_idx: int, n: int, m: int)
    requires
        0 <= m < n,
    ensures
        step_rows(run_idx, job_idx, n).len() == n,
        step_rows(run_idx, job_idx, n)[m] == step_row(run_idx, job_idx, m),
    decreases n,
{
    if m < n - 1 {
        lemma_step_rows_index(run_idx, job_idx, n - 1, m);
    } else if n > 1 {
        lemma_step_rows_index(run_idx, job_idx, n - 1, 0);
    }
    if n == 1 {
        assert(step_rows(run_idx, job_idx, 0).len() == 0);
    }
}

/// The row matches a level, a run and, when `match_job`, a job.
pub open spec fn row_matches(it: TreeItem, level: TreeLevel, run_idx: usize, job_idx: Option<usize>, match_job: bool) -> bool {
    &&& it.level == level
    &&& it.run_idx == run_idx
    &&& (match_job ==> it.job_idx == job_idx)
}

/// Row `i` is the first row that matches.
pub open spec fn is_first_row(items: Seq<TreeItem>, i: int, level: TreeLevel, run_idx: usize, job_idx: Option<usize>, match_job: bool) -> bool {
    &&& 0 <= i < items.len()
    &&& row_matches(items[i], level, run_idx, job_idx, match_job)
    &&& forall|k: int| 0 <= k < i ==> !row_matches(#[trigger] items[k], level, run_idx, job_idx, match_job)
}

/// The filter that follows `f` in the cycle All, ActiveOnly, CurrentBranch.
pub open spec fn next_filter(f: FilterMode) -> FilterMode {
    match f {
        FilterMode::All => FilterMode::ActiveOnly,
        FilterMode::ActiveOnly => FilterMode::CurrentBranch,
        FilterMode::CurrentBranch => FilterMode::All,
    }
}

/// A tree that stayed as it was, over the same data, is still consistent.
pub proof fn lemma_same_tree_consistent(a: &AppState, b: &AppState)
    requires
        a.tree_consistent(),
        b.same_tree(a),
    ensures
        b.tree_consistent(),
{
    lemma_rows_congruent(a, b, a.runs@.len() as int);
    assert forall|k: int| 0 <= k < b.tree_items@.len() implies b.item_resolves(#[trigger] b.tree_items@[k]) by {
        assert(a.item_resolves(a.tree_items@[k]));
    }
}

/// A consistent tree stays consistent when only the cursor moves onto a row.
pub proof fn lemma_cursor_moved_consistent(a: &AppState, b: &AppState)
    requires
        a.tree_consistent(),
        b.same_tree_inputs(a),
        b.tree_items@ == a.tree_items@,
        b.cursor_ok(),
    ensures
        b.tree_consistent(),
{
    lemma_rows_congruent(a, b, a.runs@.len() as int);
    assert forall|k: int| 0 <= k < b.tree_items@.len() implies b.item_resolves(#[trigger] b.tree_items@[k]) by {
        assert(a.item_resolves(a.tree_items@[k]));
    }
}

/// What `toggle_expand` does to the expansion sets, for the row under the cursor.
pub open spec fn toggle_effect(old: &AppState, new: &AppState, item: TreeItem) -> bool {
    let run_id = old.run_id_at(item.run_idx as int)->0;
    match item.level {
        TreeLevel::Run => if old.expanded_runs@.contains(run_id) {
            seq_set_remove(old.expanded_runs@, new.expanded_runs@, run_id) && pairs_without_run(
                old.expanded_jobs@,
                new.expanded_jobs@,
                run_id,
            )
        } else {
            seq_set_insert(old.expanded_runs@, new.expanded_runs@, run_id) && new.expanded_jobs@
                == old.expanded_jobs@
        },
        TreeLevel::Job => new.expanded_runs@ == old.expanded_runs@ && match old.job_key_at(
            item.run_idx as int,
            item.job_idx,
        ) {
            Some(key) => if old.expanded_jobs@.contains(key) {
                seq_set_remove(old.expanded_jobs@, new.expanded_jobs@, key)
            } else {
                seq_set_insert(old.expanded_jobs@, new.expanded_jobs@, key)
            },
            None => new.expanded_jobs@ == old.expanded_jobs@,
        },
        _ => new.expanded_runs@ == old.expanded_runs@ && new.expanded_jobs@ == old.expanded_jobs@,
    }
}

/// Nothing that the tree reads or shows has changed, nor the expansion sets.
pub open spec fn untouched(old: &AppState, new: &AppState) -> bool {
    new.same_tree(old)
}

/// The cursor row exists and its run is still there.
pub open spec fn cursor_on_run(s: &AppState) -> bool {
    s.cursor_item() is Some && s.run_id_at(s.cursor_item()->0.run_idx as int) is Some
}

/// What `expand_current` does, for the row under the cursor.
pub open spec fn expand_effect(old: &AppState, new: &AppState, r: Option<(usize, bool)>) -> bool {
    let item = old.cursor_item()->0;
    let run_id = old.run_id_at(item.run_idx as int)->0;
    let key = old.job_key_at(item.run_idx as int, item.job_idx);
    if cursor_on_run(old) && item.level == TreeLevel::Run && !old.expanded_runs@.contains(run_id) {
        &&& r == Some((item.run_idx, old.runs@[item.run_idx as int].jobs is None))
        &&& seq_set_insert(old.expanded_runs@, new.expanded_runs@, run_id)
        &&& new.expanded_jobs@ == old.expanded_jobs@
        &&& new.tree_consistent()
    } else if cursor_on_run(old) && item.level == TreeLevel::Job && key is Some
        && !old.expanded_jobs@.contains(key->0) {
        &&& r is None
        &&& new.expanded_runs@ == old.expanded_runs@
        &&& seq_set_insert(old.expanded_jobs@, new.expanded_jobs@, key->0)
        &&& new.tree_consistent()
    } else {
        r is None && untouched(old, new)
    }
}

/// What `collapse_current` does, for the row under the cursor.
pub open spec fn collapse_effect(old: &AppState, new: &AppState) -> bool {
    let item = old.cursor_item()->0;
    let run_id = old.run_id_at(item.run_idx as int)->0;
    let key = old.job_key_at(item.run_idx as int, item.job_idx);
    if !cursor_on_run(old) {
        untouched(old, new)
    } else {
        match item.level {
            TreeLevel::Run => {
                &&& seq_set_remove(old.expanded_runs@, new.expanded_runs@, run_id)
                &&& pairs_without_run(old.expanded_jobs@, new.expanded_jobs@, run_id)
                &&& new.tree_consistent()
            },
            TreeLevel::Job => if key is Some && old.expanded_jobs@.contains(key->0) {
                &&& new.expanded_runs@ == old.expanded_runs@
                &&& seq_set_remove(old.expanded_jobs@, new.expanded_jobs@, key->0)
                &&& new.tree_consistent()
            } else if key is Some {
                &&& new.same_tree_inputs(old)
                &&& new.tree_items@ == old.tree_items@
                &&& moved_to_first(old, new, TreeLevel::Run, item.run_idx, None, false)
            } else {
                untouched(old, new)
            },
            TreeLevel::Step => {
                &&& new.same_tree_inputs(old)
                &&& new.tree_items@ == old.tree_items@
                &&& moved_to_first(old, new, TreeLevel::Job, item.run_idx, item.job_idx, true)
            },
            TreeLevel::Loading => untouched(old, new),
        }
    }
}

/// The cursor went to the first matching row, or stayed where it was if none matches.
pub open spec fn moved_to_first(old: &AppState, new: &AppState, level: TreeLevel, run_idx: usize, job_idx: Option<usize>, match_job: bool) -> bool {
    if exists|i: int| is_first_row(old.tree_items@, i, level, run_idx, job_idx, match_job) {
        is_first_row(old.tree_items@, new.cursor as int, level, run_idx, job_idx, match_job)
    } else {
        new.cursor == old.cursor
    }
}

/// Whether the cursor went to the `n`-th run row, or stayed if there is none.
pub open spec fn quick_selected(old: &AppState, new: &AppState, n: int) -> bool {
    if exists|i: int| is_nth_run_row(old.tree_items@, i, n) {
        is_nth_run_row(old.tree_items@, new.cursor as int, n)
    } else {
        new.cursor == old.cursor
    }
}

/// Whether an open overlay refers to a run.
pub open spec fn overlay_refers_to(o: ActiveOverlay, run_id: u64) -> bool {
    match o {
        ActiveOverlay::Log(l) => l.run_id == run_id,
        ActiveOverlay::Confirm(c) => c.action.run_id_spec() == run_id,
        _ => false,
    }
}

/// A notification younger than its lifetime at time `now`.
pub open spec fn notification_fresh(now: u64) -> spec_fn(Notification) -> bool {
    |n: Notification| (if now >= n.timestamp { now - n.timestamp } else { 0 }) < NOTIFICATION_TTL_SECS
}

/// A cached log younger than its lifetime at time `now`.
pub open spec fn cache_fresh(now: u64) -> spec_fn(LogCacheEntry) -> bool {
    |e: LogCacheEntry| (if now >= e.log.fetched_at { now - e.log.fetched_at } else { 0 }) < LOG_CACHE_TTL_SECS
}

/// A cached log of another run than `run_id`.
pub open spec fn cache_other_run(run_id: u64) -> spec_fn(LogCacheEntry) -> bool {
    |e: LogCacheEntry| e.run_id != run_id
}

/// A run error of another run than `run_id`.
pub open spec fn error_other_run(run_id: u64) -> spec_fn((u64, String)) -> bool {
    |e: (u64, String)| e.0 != run_id
}

/// The index of the first run with this id, or -1.
pub open spec fn run_index(runs: Seq<WorkflowRun>, run_id: u64) -> int
    decreases runs.len(),
{
    if runs.len() == 0 {
        -1
    } else if run_index(runs.drop_last(), run_id) >= 0 {
        run_index(runs.drop_last(), run_id)
    } else if runs.last().database_id == run_id {
        runs.len() - 1
    } else {
        -1
    }
}

/// A cached log of another run and job than `key`.
pub open spec fn cache_other_key(run_id: u64, job_id: Option<u64>) -> spec_fn(LogCacheEntry) -> bool {
    |e: LogCacheEntry| !(e.run_id == run_id && e.job_id == job_id)
}

fn notification_is_fresh(n: &Notification, now: &u64) -> (b: bool)
    ensures
        b == notification_fresh(*now)(*n),
{
    now.saturating_sub(n.timestamp) < NOTIFICATION_TTL_SECS
}

fn cache_entry_is_fresh(e: &LogCacheEntry, now: &u64) -> (b: bool)
    ensures
        b == cache_fresh(*now)(*e),
{
    now.saturating_sub(e.log.fetched_at) < LOG_CACHE_TTL_SECS
}

fn cache_entry_of_other_run(e: &LogCacheEntry, run_id: &u64) -> (b: bool)
    ensures
        b == cache_other_run(*run_id)(*e),
{
    e.run_id != *run_id
}

fn cache_entry_of_other_key(e: &LogCacheEntry, key: &(u64, Option<u64>)) -> (b: bool)
    ensures
        b == cache_other_key(key.0, key.1)(*e),
{
    !(e.run_id == key.0 && e.job_id == key.1)
}

fn error_of_other_run(e: &(u64, String), run_id: &u64) -> (b: bool)
    ensures
        b == error_other_run(*run_id)(*e),
{
    e.0 != *run_id
}

impl AppState {
    /// Nothing that the tree reads or shows has changed.
    pub open spec fn same_tree(&self, o: &AppState) -> bool {
        &&& self.same_tree_inputs(o)
        &&& self.tree_items@ == o.tree_items@
        &&& self.cursor == o.cursor
    }

    /// The counters, timers and flags outside the tree are unchanged.
    pub open spec fn same_extras(&self, o: &AppState) -> bool {
        &&& self.loading_count == o.loading_count
        &&& self.last_poll == o.last_poll
        &&& self.poll_interval == o.poll_interval
        &&& self.next_poll_in == o.next_poll_in
        &&& self.spinner_frame == o.spinner_frame
        &&& self.should_quit == o.should_quit
        &&& self.desktop_notify == o.desktop_notify
    }

    /// The run list, the filter and the branch are unchanged.
    pub open spec fn same_runs(&self, o: &AppState) -> bool {
        &&& self.runs@ == o.runs@
        &&& self.filter == o.filter
        &&& self.config.branch == o.config.branch
    }

    /// The text of the error toast, or nothing.
    pub open spec fn error_text(&self) -> Seq<char> {
        match self.error {
            Some((m, _)) => m@,
            None => seq![],
        }
    }

    /// The row under the cursor, if any.
    pub open spec fn cursor_item(&self) -> Option<TreeItem> {
        if self.cursor < self.tree_items@.len() {
            Some(self.tree_items@[self.cursor as int])
        } else {
            None
        }
    }

    /// The id of the run at an index, if there is one.
    pub open spec fn run_id_at(&self, run_idx: int) -> Option<u64> {
        if 0 <= run_idx < self.runs@.len() {
            Some(self.runs@[run_idx].database_id)
        } else {
            None
        }
    }

    /// The (run id, job id) key of a job, if the job is there and has an id.
    pub open spec fn job_key_at(&self, run_idx: int, job_idx: Option<usize>) -> Option<(u64, u64)> {
        if 0 <= run_idx < self.runs@.len() && job_idx is Some && self.runs@[run_idx].jobs is Some
            && job_idx->0 < self.runs@[run_idx].jobs->0@.len()
            && self.runs@[run_idx].jobs->0@[job_idx->0 as int].database_id is Some {
            Some(
                (
                    self.runs@[run_idx].database_id,
                    self.runs@[run_idx].jobs->0@[job_idx->0 as int].database_id->0,
                ),
            )
        } else {
            None
        }
    }

    /// A row that `resolve_item` turns into a run, job or step.
    pub open spec fn resolvable(&self, it: TreeItem) -> bool {
        &&& it.run_idx < self.runs@.len()
        &&& match it.level {
            TreeLevel::Run => true,
            TreeLevel::Job => {
                &&& it.job_idx is Some
                &&& self.runs@[it.run_idx as int].jobs is Some
                &&& it.job_idx->0 < self.runs@[it.run_idx as int].jobs->0@.len()
            },
            TreeLevel::Step => {
                &&& it.job_idx is Some
                &&& it.step_idx is Some
                &&& self.runs@[it.run_idx as int].jobs is Some
                &&& it.job_idx->0 < self.runs@[it.run_idx as int].jobs->0@.len()
                &&& it.step_idx->0 < self.runs@[it.run_idx as int].jobs->0@[it.job_idx->0 as int].steps@.len()
            },
            TreeLevel::Loading => false,
        }
    }

    /// The job a resolvable job or step row points at.
    pub open spec fn job_of(&self, it: TreeItem) -> Job {
        self.runs@[it.run_idx as int].jobs->0@[it.job_idx->0 as int]
    }

    /// The conclusion of what a resolvable row points at.
    pub open spec fn resolved_conclusion(&self, it: TreeItem) -> Option<Conclusion> {
        match it.level {
            TreeLevel::Run => self.runs@[it.run_idx as int].conclusion,
            TreeLevel::Job => self.job_of(it).conclusion,
            _ => self.job_of(it).steps@[it.step_idx->0 as int].conclusion,
        }
    }

    /// Whether any run may still change on its own.
    pub open spec fn has_active_runs_spec(&self) -> bool {
        exists|i: int| 0 <= i < self.runs@.len() && (#[trigger] self.runs@[i]).status.is_active_spec()
    }

    /// The run, job or step a row points at; `None` for a loading row or a
    /// row that no longer resolves.
    pub fn resolve_item(&self, item: &TreeItem) -> (r: Option<ResolvedItem<'_>>)
        ensures
            r is Some == self.resolvable(*item),
            r matches Some(ResolvedItem::Run(x)) ==> item.level == TreeLevel::Run && *x == self.runs@[item.run_idx as int],
            r matches Some(ResolvedItem::Job(x)) ==> item.level == TreeLevel::Job && *x == self.job_of(*item),
            r matches Some(ResolvedItem::Step(x)) ==> item.level == TreeLevel::Step && *x == self.job_of(*item).steps@[item.step_idx->0 as int],
    {
        if item.run_idx >= self.runs.len() {
            return None;
        }
        let run = &self.runs[item.run_idx];
        match item.level {
            TreeLevel::Run => Some(ResolvedItem::Run(run)),
            TreeLevel::Job => {
                match (&run.jobs, item.job_idx) {
                    (Some(jobs), Some(j)) => if j < jobs.len() {
                        Some(ResolvedItem::Job(&jobs[j]))
                    } else {
                        None
                    },
                    _ => None,
                }
            },
            TreeLevel::Step => {
                match (&run.jobs, item.job_idx, item.step_idx) {
                    (Some(jobs), Some(j), Some(st)) => if j < jobs.len() && st < jobs[j].steps.len() {
                        Some(ResolvedItem::Step(&jobs[j].steps[st]))
                    } else {
                        None
                    },
                    _ => None,
                }
            },
            TreeLevel::Loading => None,
        }
    }

    /// Indices and references of the runs that pass the filter, in order.
    pub fn filtered_runs_indices(&self) -> (r: Vec<(usize, &WorkflowRun)>)
        ensures
            forall|k: int| 0 <= k < r@.len() ==> {
                &&& (#[trigger] r@[k]).0 < self.runs@.len()
                &&& *r@[k].1 == self.runs@[r@[k].0 as int]
                &&& run_visible(self.filter, self.config.branch, self.runs@[r@[k].0 as int])
            },
            forall|k: int, l: int| 0 <= k < l < r@.len() ==> (#[trigger] r@[k]).0 < (#[trigger] r@[l]).0,
            forall|i: int| 0 <= i < self.runs@.len() && run_visible(self.filter, self.config.branch, #[trigger] self.runs@[i])
                ==> exists|k: int| 0 <= k < r@.len() && r@[k].0 == i,
    {
        let mut out: Vec<(usize, &WorkflowRun)> = Vec::new();
        let mut i: usize = 0;
        while i < self.runs.len()
            invariant
                i <= self.runs@.len(),
                forall|k: int| 0 <= k < out@.len() ==> {
                    &&& (#[trigger] out@[k]).0 < i
                    &&& *out@[k].1 == self.runs@[out@[k].0 as int]
                    &&& run_visible(self.filter, self.config.branch, self.runs@[out@[k].0 as int])
                },
                forall|k: int, l: int| 0 <= k < l < out@.len() ==> (#[trigger] out@[k]).0 < (#[trigger] out@[l]).0,
                forall|j: int| 0 <= j < i && run_visible(self.filter, self.config.branch, #[trigger] self.runs@[j])
                    ==> exists|k: int| 0 <= k < out@.len() && out@[k].0 == j,
            decreases self.runs@.len() - i,
        {
            let ghost prev = out@;
            let run = &self.runs[i];
            if self.filter_predicate(run) {
                out.push((i, run));
                assert(out@[out@.len() - 1].0 == i);
            }
            assert forall|j: int| 0 <= j < i + 1 && run_visible(self.filter, self.config.branch, #[trigger] self.runs@[j])
                implies exists|k: int| 0 <= k < out@.len() && out@[k].0 == j by {
                if j < i {
                    let k = choose|k: int| 0 <= k < prev.len() && prev[k].0 == j;
                    assert(out@[k] == prev[k]);
                } else {
                    assert(out@[out@.len() - 1].0 == j);
                }
            }
            i = i + 1;
        }
        out
    }

    pub fn move_cursor_up(&mut self)
        ensures
            final(self).cursor == if old(self).cursor > 0 {
                old(self).cursor - 1
            } else {
                0
            },
            final(self).same_tree_inputs(old(self)),
            final(self).tree_items@ == old(self).tree_items@,
            old(self).tree_consistent() ==> final(self).tree_consistent(),
    {
        let ghost pre = *self;
        if self.cursor > 0 {
            self.cursor = self.cursor - 1;
        }
        proof {
            if pre.tree_consistent() {
                lemma_rows_congruent(&pre, self, pre.runs@.len() as int);
                assert forall|k: int| 0 <= k < self.tree_items@.len() implies self.item_resolves(#[trigger] self.tree_items@[k]) by {
                    assert(pre.item_resolves(pre.tree_items@[k]));
                }
            }
        }
    }

    pub fn move_cursor_down(&mut self)
        ensures
            final(self).cursor == if old(self).tree_items@.len() > 0 && old(self).cursor < old(self).tree_items@.len() - 1 {
                old(self).cursor + 1
            } else {
                old(self).cursor as int
            },
            final(self).same_tree_inputs(old(self)),
            final(self).tree_items@ == old(self).tree_items@,
            old(self).tree_consistent() ==> final(self).tree_consistent(),
    {
        let ghost pre = *self;
        if self.tree_items.len() > 0 && self.cursor < self.tree_items.len() - 1 {
            self.cursor = self.cursor + 1;
        }
        proof {
            if pre.tree_consistent() {
                lemma_rows_congruent(&pre, self, pre.runs@.len() as int);
                assert forall|k: int| 0 <= k < self.tree_items@.len() implies self.item_resolves(#[trigger] self.tree_items@[k]) by {
                    assert(pre.item_resolves(pre.tree_items@[k]));
                }
            }
        }
    }

    fn run_id_for(&self, run_idx: usize) -> (r: Option<u64>)
        ensures
            r == self.run_id_at(run_idx as int),
    {
        if run_idx < self.runs.len() {
            Some(self.runs[run_idx].database_id)
        } else {
            None
        }
    }

    fn job_db_id_for(&self, run_idx: usize, job_idx: usize) -> (r: Option<u64>)
        ensures
            r == match self.job_key_at(run_idx as int, Some(job_idx)) {
                Some(key) => Some(key.1),
                None => None,
            },
    {
        if run_idx < self.runs.len() {
            match &self.runs[run_idx].jobs {
                Some(jobs) => if job_idx < jobs.len() {
                    jobs[job_idx].database_id
                } else {
                    None
                },
                None => None,
            }
        } else {
            None
        }
    }

    /// Removes a run and all of its jobs from the expansion sets.
    fn collapse_run_from_expanded(&mut self, run_id: u64)
        ensures
            seq_set_remove(old(self).expanded_runs@, final(self).expanded_runs@, run_id),
            pairs_without_run(old(self).expanded_jobs@, final(self).expanded_jobs@, run_id),
            final(self).same_runs(old(self)),
            final(self).tree_items@ == old(self).tree_items@,
            final(self).cursor == old(self).cursor,
            final(self).overlay == old(self).overlay,
            final(self).log_cache@ == old(self).log_cache@,
            final(self).run_errors@ == old(self).run_errors@,
            final(self).previous_snapshot@ == old(self).previous_snapshot@,
            final(self).poll_count == old(self).poll_count,
            final(self).notifications@ == old(self).notifications@,
            final(self).error == old(self).error,
    {
        self.expanded_runs = without_id(&self.expanded_runs, run_id);
        self.expanded_jobs = without_run_pairs(&self.expanded_jobs, run_id);
    }

    /// The first row that matches, if any.
    fn find_row(&self, level: TreeLevel, run_idx: usize, job_idx: Option<usize>, match_job: bool) -> (r: Option<usize>)
        ensures
            r matches Some(i) ==> is_first_row(self.tree_items@, i as int, level, run_idx, job_idx, match_job),
            r is None ==> forall|k: int| 0 <= k < self.tree_items@.len() ==> !row_matches(#[trigger] self.tree_items@[k], level, run_idx, job_idx, match_job),
    {
        let mut i: usize = 0;
        while i < self.tree_items.len()
            invariant
                i <= self.tree_items@.len(),
                forall|k: int| 0 <= k < i ==> !row_matches(#[trigger] self.tree_items@[k], level, run_idx, job_idx, match_job),
            decreases self.tree_items@.len() - i,
        {
            let ti = self.tree_items[i];
            if ti.level == level && ti.run_idx == run_idx && (!match_job || ti.job_idx == job_idx) {
                return Some(i);
            }
            i = i + 1;
        }
        None
    }
    /// Expands or collapses the row under the cursor (a run or a job).
    pub fn toggle_expand(&mut self)
        ensures
            final(self).same_runs(old(self)),
            cursor_on_run(old(self)) ==> final(self).tree_consistent() && toggle_effect(
                old(self),
                final(self),
                old(self).cursor_item()->0,
            ),
            !cursor_on_run(old(self)) ==> untouched(old(self), final(self)),
    {
        if self.cursor >= self.tree_items.len() {
            return;
        }
        let item = self.tree_items[self.cursor];
        let run_id = match self.run_id_for(item.run_idx) {
            Some(id) => id,
            None => {
                return;
            },
        };
        match item.level {
            TreeLevel::Run => {
                if contains_id(&self.expanded_runs, run_id) {
                    self.collapse_run_from_expanded(run_id);
                } else {
                    proof {
                        lemma_push_insert(self.expanded_runs@, run_id);
                    }
                    self.expanded_runs.push(run_id);
                }
            },
            TreeLevel::Job => {
                if let Some(job_idx) = item.job_idx {
                    if let Some(job_db_id) = self.job_db_id_for(item.run_idx, job_idx) {
                        if contains_pair(&self.expanded_jobs, run_id, job_db_id) {
                            self.expanded_jobs = without_pair(&self.expanded_jobs, run_id, job_db_id);
                        } else {
                            proof {
                                lemma_push_insert(self.expanded_jobs@, (run_id, job_db_id));
                            }
                            self.expanded_jobs.push((run_id, job_db_id));
                        }
                    }
                }
            },
            TreeLevel::Step | TreeLevel::Loading => {},
        }
        self.rebuild_tree();
    }

    /// Expands the row under the cursor. For a run that was collapsed, returns
    /// its index and whether its jobs still have to be fetched.
    pub fn expand_current(&mut self) -> (r: Option<(usize, bool)>)
        ensures
            final(self).same_runs(old(self)),
            expand_effect(old(self), final(self), r),
    {
        if self.cursor >= self.tree_items.len() {
            return None;
        }
        let item = self.tree_items[self.cursor];
        let run_id = match self.run_id_for(item.run_idx) {
            Some(id) => id,
            None => {
                return None;
            },
        };
        match item.level {
            TreeLevel::Run => {
                if !contains_id(&self.expanded_runs, run_id) {
                    proof {
                        lemma_push_insert(self.expanded_runs@, run_id);
                    }
                    self.expanded_runs.push(run_id);
                    self.rebuild_tree();
                    let needs_fetch = self.runs[item.run_idx].jobs.is_none();
                    return Some((item.run_idx, needs_fetch));
                }
            },
            TreeLevel::Job => {
                if let Some(job_idx) = item.job_idx {
                    if let Some(job_db_id) = self.job_db_id_for(item.run_idx, job_idx) {
                        if !contains_pair(&self.expanded_jobs, run_id, job_db_id) {
                            proof {
                                lemma_push_insert(self.expanded_jobs@, (run_id, job_db_id));
                            }
                            self.expanded_jobs.push((run_id, job_db_id));
                            self.rebuild_tree();
                        }
                    }
                }
            },
            TreeLevel::Step | TreeLevel::Loading => {},
        }
        None
    }

    /// Collapses the row under the cursor. On a collapsed job the cursor goes
    /// to its run; on a step it goes to its job. Collapsing a run also
    /// collapses all of its jobs.
    pub fn collapse_current(&mut self)
        ensures
            final(self).same_runs(old(self)),
            collapse_effect(old(self), final(self)),
            old(self).tree_consistent() ==> final(self).tree_consistent(),
    {
        let ghost pre = *self;
        if self.cursor >= self.tree_items.len() {
            return;
        }
        let item = self.tree_items[self.cursor];
        let run_id = match self.run_id_for(item.run_idx) {
            Some(id) => id,
            None => {
                return;
            },
        };
        match item.level {
            TreeLevel::Run => {
                self.collapse_run_from_expanded(run_id);
                self.rebuild_tree();
            },
            TreeLevel::Job => {
                if let Some(job_idx) = item.job_idx {
                    if let Some(job_db_id) = self.job_db_id_for(item.run_idx, job_idx) {
                        if contains_pair(&self.expanded_jobs, run_id, job_db_id) {
                            self.expanded_jobs = without_pair(&self.expanded_jobs, run_id, job_db_id);
                            self.rebuild_tree();
                        } else {
                            if let Some(i) = self.find_row(TreeLevel::Run, item.run_idx, None, false) {
                                self.cursor = i;
                            }
                            proof {
                                if pre.tree_consistent() {
                                    lemma_cursor_moved_consistent(&pre, self);
                                }
                            }
                        }
                    }
                }
            },
            TreeLevel::Step => {
                if let Some(i) = self.find_row(TreeLevel::Job, item.run_idx, item.job_idx, true) {
                    self.cursor = i;
                }
                proof {
                    if pre.tree_consistent() {
                        lemma_cursor_moved_consistent(&pre, self);
                    }
                }
            },
            TreeLevel::Loading => {},
        }
    }

    /// Moves the cursor to the `n`-th visible run row (counting from 1),
    /// skipping job and step rows; does nothing if there is no such row.
    pub fn quick_select(&mut self, n: usize)
        ensures
            final(self).same_tree_inputs(old(self)),
            final(self).tree_items@ == old(self).tree_items@,
            quick_selected(old(self), final(self), n as int),
            old(self).tree_consistent() ==> final(self).tree_consistent(),
    {
        let ghost pre = *self;
        let mut run_count_so_far: usize = 0;
        let mut i: usize = 0;
        while i < self.tree_items.len()
            invariant
                *self == pre,
                pre == *old(self),
                i <= self.tree_items@.len(),
                run_count_so_far == run_count(self.tree_items@, i as int),
                run_count_so_far <= i,
                forall|k: int| 0 <= k < i ==> !is_nth_run_row(self.tree_items@, k, n as int),
            decreases self.tree_items@.len() - i,
        {
            if self.tree_items[i].level == TreeLevel::Run {
                run_count_so_far = run_count_so_far + 1;
                if run_count_so_far == n {
                    self.cursor = i;
                    proof {
                        if pre.tree_consistent() {
                            lemma_cursor_moved_consistent(&pre, self);
                        }
                    }
                    return;
                }
            }
            i = i + 1;
        }
    }

    /// Switches to the next filter in the cycle and rebuilds the tree.
    pub fn cycle_filter(&mut self)
        ensures
            final(self).filter == next_filter(old(self).filter),
            final(self).runs@ == old(self).runs@,
            final(self).config.branch == old(self).config.branch,
            final(self).expanded_runs@ == old(self).expanded_runs@,
            final(self).expanded_jobs@ == old(self).expanded_jobs@,
            final(self).tree_consistent(),
    {
        self.filter = match self.filter {
            FilterMode::All => FilterMode::ActiveOnly,
            FilterMode::ActiveOnly => FilterMode::CurrentBranch,
            FilterMode::CurrentBranch => FilterMode::All,
        };
        self.rebuild_tree();
    }

    /// The URL of the run of the row under the cursor.
    pub fn current_run_url(&self) -> (r: Option<&str>)
        ensures
            r is Some == cursor_on_run(self),
            r is Some ==> r->0@ == self.runs@[self.cursor_item()->0.run_idx as int].url@,
    {
        if self.cursor < self.tree_items.len() {
            let idx = self.tree_items[self.cursor].run_idx;
            if idx < self.runs.len() {
                return Some(self.runs[idx].url.as_str());
            }
        }
        None
    }

    /// The id of the run of the row under the cursor.
    pub fn current_run_id(&self) -> (r: Option<u64>)
        ensures
            r is Some == cursor_on_run(self),
            r is Some ==> r->0 == self.runs@[self.cursor_item()->0.run_idx as int].database_id,
    {
        if self.cursor < self.tree_items.len() {
            let idx = self.tree_items[self.cursor].run_idx;
            if idx < self.runs.len() {
                return Some(self.runs[idx].database_id);
            }
        }
        None
    }

    /// The status of the run of the row under the cursor.
    pub fn current_run_status(&self) -> (r: Option<RunStatus>)
        ensures
            r is Some == cursor_on_run(self),
            r is Some ==> r->0 == self.runs@[self.cursor_item()->0.run_idx as int].status,
    {
        if self.cursor < self.tree_items.len() {
            let idx = self.tree_items[self.cursor].run_idx;
            if idx < self.runs.len() {
                return Some(self.runs[idx].status);
            }
        }
        None
    }

    /// The run of the row under the cursor as `"<name> #<number>"`.
    pub fn current_run_display_title(&self) -> (r: Option<String>)
        ensures
            r is Some == cursor_on_run(self),
            r is Some ==> r->0@ == self.runs@[self.cursor_item()->0.run_idx as int].name@ + seq![' ', '#']
                + decimal(self.runs@[self.cursor_item()->0.run_idx as int].number as nat),
    {
        if self.cursor < self.tree_items.len() {
            let idx = self.tree_items[self.cursor].run_idx;
            if idx < self.runs.len() {
                let run = &self.runs[idx];
                proof {
                    reveal_strlit(" #");
                }
                let head = concat(run.name.as_str(), " #");
                let num = u64_text(run.number);
                return Some(concat(head.as_str(), num.as_str()));
            }
        }
        None
    }

    /// Whether any run may still change on its own.
    pub fn has_active_runs(&self) -> (r: bool)
        ensures
            r == self.has_active_runs_spec(),
    {
        let mut i: usize = 0;
        while i < self.runs.len()
            invariant
                i <= self.runs@.len(),
                forall|k: int| 0 <= k < i ==> !(#[trigger] self.runs@[k]).status.is_active_spec(),
            decreases self.runs@.len() - i,
        {
            if self.runs[i].status.is_active() {
                return true;
            }
            i = i + 1;
        }
        false
    }

    /// The run id, and the job id for a job or step row, of the row under the cursor.
    pub fn current_item_ids(&self) -> (r: Option<(u64, Option<u64>)>)
        ensures
            r is Some == (cursor_on_run(self) && match self.cursor_item()->0.level {
                TreeLevel::Run => true,
                TreeLevel::Loading => false,
                _ => {
                    let it = self.cursor_item()->0;
                    &&& it.job_idx is Some
                    &&& self.runs@[it.run_idx as int].jobs is Some
                    &&& it.job_idx->0 < self.runs@[it.run_idx as int].jobs->0@.len()
                },
            }),
            r matches Some((rid, _)) ==> rid == self.runs@[self.cursor_item()->0.run_idx as int].database_id,
            r matches Some((_, jid)) ==> jid == if self.cursor_item()->0.level == TreeLevel::Run {
                None
            } else {
                self.job_of(self.cursor_item()->0).database_id
            },
    {
        if self.cursor >= self.tree_items.len() {
            return None;
        }
        let item = self.tree_items[self.cursor];
        if item.run_idx >= self.runs.len() {
            return None;
        }
        let run = &self.runs[item.run_idx];
        let run_id = run.database_id;
        match item.level {
            TreeLevel::Run => Some((run_id, None)),
            TreeLevel::Job | TreeLevel::Step => {
                match (&run.jobs, item.job_idx) {
                    (Some(jobs), Some(j)) => if j < jobs.len() {
                        Some((run_id, jobs[j].database_id))
                    } else {
                        None
                    },
                    _ => None,
                }
            },
            TreeLevel::Loading => None,
        }
    }

    /// Whether the row under the cursor points at something that failed.
    pub fn current_item_is_failed(&self) -> (r: bool)
        ensures
            r == (self.cursor_item() is Some && self.resolvable(self.cursor_item()->0)
                && self.resolved_conclusion(self.cursor_item()->0) == Some(Conclusion::Failure)),
    {
        if self.cursor >= self.tree_items.len() {
            return false;
        }
        let item = &self.tree_items[self.cursor];
        match self.resolve_item(item) {
            Some(ResolvedItem::Run(r)) => r.conclusion == Some(Conclusion::Failure),
            Some(ResolvedItem::Job(j)) => j.conclusion == Some(Conclusion::Failure),
            Some(ResolvedItem::Step(st)) => st.conclusion == Some(Conclusion::Failure),
            None => false,
        }
    }
    /// Drops the notifications that are older than their lifetime at `now`.
    pub fn prune_notifications(&mut self, now: u64)
        ensures
            final(self).notifications@ == old(self).notifications@.filter(notification_fresh(now)),
            final(self).same_tree(old(self)),
    {
        let mut taken: Vec<Notification> = Vec::new();
        std::mem::swap(&mut taken, &mut self.notifications);
        self.notifications = retain_where(
            taken,
            &now,
            notification_is_fresh,
            Ghost(notification_fresh(now)),
        );
    }

    pub fn is_loading(&self) -> (r: bool)
        ensures
            r == (self.loading_count > 0),
    {
        self.loading_count > 0
    }

    pub fn begin_loading(&mut self)
        ensures
            final(self).loading_count == if old(self).loading_count < u16::MAX {
                old(self).loading_count + 1
            } else {
                old(self).loading_count as int
            },
            final(self).same_tree(old(self)),
    {
        self.loading_count = self.loading_count.saturating_add(1);
    }

    pub fn end_loading(&mut self)
        ensures
            final(self).loading_count == if old(self).loading_count > 0 {
                old(self).loading_count - 1
            } else {
                0
            },
            final(self).same_tree(old(self)),
    {
        self.loading_count = self.loading_count.saturating_sub(1);
    }

    pub fn close_overlay(&mut self)
        ensures
            final(self).overlay is Closed,
            final(self).same_tree(old(self)),
    {
        self.overlay = ActiveOverlay::Closed;
    }

    /// Adds a notification stamped with `now`.
    pub fn add_notification(&mut self, run_id: u64, message: String, now: u64)
        ensures
            final(self).notifications@ == old(self).notifications@.push(
                Notification { run_id, message, timestamp: now },
            ),
            final(self).same_tree(old(self)),
            final(self).log_cache@ == old(self).log_cache@,
            final(self).overlay == old(self).overlay,
    {
        self.notifications.push(Notification { run_id, message, timestamp: now });
    }

    /// Drops the cached logs that are older than their lifetime at `now`.
    pub fn prune_log_cache(&mut self, now: u64)
        ensures
            final(self).log_cache@ == old(self).log_cache@.filter(cache_fresh(now)),
            final(self).same_tree(old(self)),
    {
        let mut taken: Vec<LogCacheEntry> = Vec::new();
        std::mem::swap(&mut taken, &mut self.log_cache);
        self.log_cache = retain_where(
            taken,
            &now,
            cache_entry_is_fresh,
            Ghost(cache_fresh(now)),
        );
    }

    /// Drops the cached logs of one run.
    pub(crate) fn forget_logs_of(&mut self, run_id: u64)
        ensures
            final(self).log_cache@ == old(self).log_cache@.filter(cache_other_run(run_id)),
            final(self).same_tree(old(self)),
            final(self).overlay == old(self).overlay,
            final(self).run_errors@ == old(self).run_errors@,
            final(self).notifications@ == old(self).notifications@,
    {
        let mut taken: Vec<LogCacheEntry> = Vec::new();
        std::mem::swap(&mut taken, &mut self.log_cache);
        self.log_cache = retain_where(
            taken,
            &run_id,
            cache_entry_of_other_run,
            Ghost(cache_other_run(run_id)),
        );
    }

    /// The cached log of a run (and job), if it is younger than its lifetime at `now`.
    pub fn cached_log(&self, run_id: u64, job_id: Option<u64>, now: u64) -> (r: Option<&String>)
        ensures
            r matches Some(c) ==> exists|k: int| 0 <= k < self.log_cache@.len()
                && (#[trigger] self.log_cache@[k]).run_id == run_id && self.log_cache@[k].job_id == job_id
                && cache_fresh(now)(self.log_cache@[k]) && self.log_cache@[k].log.content == *c,
            r is None ==> forall|k: int| 0 <= k < self.log_cache@.len() && (#[trigger] self.log_cache@[k]).run_id == run_id
                && self.log_cache@[k].job_id == job_id ==> !cache_fresh(now)(self.log_cache@[k]),
    {
        let mut i: usize = 0;
        while i < self.log_cache.len()
            invariant
                i <= self.log_cache@.len(),
                forall|k: int| 0 <= k < i && (#[trigger] self.log_cache@[k]).run_id == run_id
                    && self.log_cache@[k].job_id == job_id ==> !cache_fresh(now)(self.log_cache@[k]),
            decreases self.log_cache@.len() - i,
        {
            let e = &self.log_cache[i];
            if e.run_id == run_id && e.job_id == job_id && now.saturating_sub(e.log.fetched_at) < LOG_CACHE_TTL_SECS {
                return Some(&e.log.content);
            }
            i = i + 1;
        }
        None
    }

    /// Stores a fetched log, replacing an earlier one for the same run and job.
    pub fn cache_log(&mut self, run_id: u64, job_id: Option<u64>, content: String, now: u64)
        ensures
            final(self).log_cache@.len() > 0,
            final(self).log_cache@.last() == (LogCacheEntry { run_id, job_id, log: FailedLog { content, fetched_at: now } }),
            forall|k: int| 0 <= k < final(self).log_cache@.len() - 1 ==> {
                let e = #[trigger] final(self).log_cache@[k];
                &&& !(e.run_id == run_id && e.job_id == job_id)
                &&& old(self).log_cache@.contains(e)
            },
            forall|k: int| 0 <= k < old(self).log_cache@.len() && !((#[trigger] old(self).log_cache@[k]).run_id == run_id
                && old(self).log_cache@[k].job_id == job_id) ==> final(self).log_cache@.contains(old(self).log_cache@[k]),
            final(self).same_tree(old(self)),
            final(self).overlay == old(self).overlay,
    {
        let mut taken: Vec<LogCacheEntry> = Vec::new();
        std::mem::swap(&mut taken, &mut self.log_cache);
        let ghost pred = cache_other_key(run_id, job_id);
        let kept = retain_where(
            taken,
            &(run_id, job_id),
            cache_entry_of_other_key,
            Ghost(pred),
        );
        self.log_cache = kept;
        let ghost before = self.log_cache@;
        self.log_cache.push(LogCacheEntry { run_id, job_id, log: FailedLog { content, fetched_at: now } });
        proof {
            broadcast use vstd::seq_lib::group_filter_ensures;
            assert forall|k: int| 0 <= k < self.log_cache@.len() - 1 implies {
                let e = #[trigger] self.log_cache@[k];
                &&& !(e.run_id == run_id && e.job_id == job_id)
                &&& old(self).log_cache@.contains(e)
            } by {
                assert(self.log_cache@[k] == before[k]);
                lemma_filter_contains_iff(old(self).log_cache@, pred, before[k]);
            }
            assert forall|k: int| 0 <= k < old(self).log_cache@.len() && !((#[trigger] old(self).log_cache@[k]).run_id == run_id
                && old(self).log_cache@[k].job_id == job_id) implies self.log_cache@.contains(old(self).log_cache@[k]) by {
                lemma_filter_contains_iff(old(self).log_cache@, pred, old(self).log_cache@[k]);
                let j = choose|j: int| 0 <= j < before.len() && before[j] == old(self).log_cache@[k];
                assert(self.log_cache@[j] == before[j]);
            }
        }
    }

    /// Replaces the run list and rebuilds the tree.
    pub fn update_runs(&mut self, new_runs: Vec<WorkflowRun>)
        ensures
            final(self).runs@ == new_runs@,
            final(self).expanded_runs@ == old(self).expanded_runs@,
            final(self).expanded_jobs@ == old(self).expanded_jobs@,
            final(self).filter == old(self).filter,
            final(self).tree_consistent(),
    {
        self.runs = new_runs;
        self.rebuild_tree();
    }

    pub fn advance_spinner(&mut self)
        requires
            old(self).spinner_frame < usize::MAX,
        ensures
            final(self).spinner_frame == (old(self).spinner_frame + 1) % (SPINNER_FRAME_COUNT as int),
            final(self).same_tree(old(self)),
    {
        self.spinner_frame = (self.spinner_frame + 1) % SPINNER_FRAME_COUNT;
    }

    /// Raises the global error toast at time `now`.
    pub fn set_error(&mut self, msg: String, now: u64)
        ensures
            final(self).error == Some((msg, now)),
            final(self).same_tree(old(self)),
    {
        self.error = Some((msg, now));
    }

    pub fn clear_error(&mut self)
        ensures
            final(self).error is None,
            final(self).same_tree(old(self)),
    {
        self.error = None;
    }

    /// Clears the error toast once it has been shown for its lifetime.
    pub fn prune_error(&mut self, now: u64)
        ensures
            final(self).error == match old(self).error {
                Some((m, ts)) => if (if now >= ts { now - ts } else { 0 }) >= ERROR_TTL_SECS {
                    None
                } else {
                    Some((m, ts))
                },
                None => None,
            },
            final(self).same_tree(old(self)),
    {
        let expired = match &self.error {
            Some((_, ts)) => now.saturating_sub(*ts) >= ERROR_TTL_SECS,
            None => false,
        };
        if expired {
            self.error = None;
        }
    }

    pub fn error_message(&self) -> (r: Option<&str>)
        ensures
            r is Some == self.error is Some,
            r is Some ==> r->0@ == self.error_text(),
    {
        match &self.error {
            Some((msg, _)) => Some(msg.as_str()),
            None => None,
        }
    }

    pub fn has_log_overlay(&self) -> (r: bool)
        ensures
            r == self.overlay is Log,
    {
        match self.overlay {
            ActiveOverlay::Log(_) => true,
            _ => false,
        }
    }

    /// Opens the log overlay on the last `LOG_MAX_LINES` lines of `content`,
    /// replacing any open overlay.
    pub fn open_log_overlay(&mut self, title: String, content: &str, run_id: u64, job_id: Option<u64>)
        ensures
            final(self).overlay matches ActiveOverlay::Log(o) && o.title == title
                && texts(o.lines@) == tail_spec(lines_of(content@), LOG_MAX_LINES as nat)
                && o.scroll == 0 && o.run_id == run_id && o.job_id == job_id,
            final(self).same_tree(old(self)),
    {
        let lines = split_lines(content);
        let lines = tail_lines(lines, LOG_MAX_LINES);
        proof {
            assert(texts(lines@) =~= tail_spec(lines_of(content@), LOG_MAX_LINES as nat));
        }
        self.overlay = ActiveOverlay::Log(LogOverlay { title, lines, scroll: 0, run_id, job_id });
    }

    pub fn close_log_overlay(&mut self)
        ensures
            old(self).overlay is Log ==> final(self).overlay is Closed,
            !(old(self).overlay is Log) ==> final(self).overlay == old(self).overlay,
            final(self).same_tree(old(self)),
    {
        if self.has_log_overlay() {
            self.overlay = ActiveOverlay::Closed;
        }
    }

    /// Scrolls the log overlay up by `amount` lines, stopping at the top.
    pub fn scroll_log_up(&mut self, amount: usize)
        ensures
            match (old(self).overlay, final(self).overlay) {
                (ActiveOverlay::Log(a), ActiveOverlay::Log(b)) => b == LogOverlay {
                    scroll: if a.scroll >= amount { (a.scroll - amount) as usize } else { 0 },
                    ..a
                },
                (a, b) => !(a is Log) && a == b,
            },
            final(self).same_tree(old(self)),
    {
        match &mut self.overlay {
            ActiveOverlay::Log(o) => {
                o.scroll = o.scroll.saturating_sub(amount);
            },
            _ => {},
        }
    }

    /// Scrolls the log overlay down by `amount` lines, stopping where the last
    /// line is at the bottom of a view `visible_height` lines high.
    pub fn scroll_log_down(&mut self, amount: usize, visible_height: usize)
        ensures
            match (old(self).overlay, final(self).overlay) {
                (ActiveOverlay::Log(a), ActiveOverlay::Log(b)) => {
                    let max_scroll = if a.lines@.len() >= visible_height { a.lines@.len() - visible_height } else { 0 };
                    b == LogOverlay {
                        scroll: if a.scroll + amount <= max_scroll { (a.scroll + amount) as usize } else { max_scroll as usize },
                        ..a
                    }
                },
                (a, b) => !(a is Log) && a == b,
            },
            final(self).same_tree(old(self)),
    {
        match &mut self.overlay {
            ActiveOverlay::Log(o) => {
                let max_scroll = o.lines.len().saturating_sub(visible_height);
                let target = o.scroll.saturating_add(amount);
                o.scroll = if target <= max_scroll { target } else { max_scroll };
            },
            _ => {},
        }
    }

    pub fn scroll_log_to_top(&mut self)
        ensures
            match (old(self).overlay, final(self).overlay) {
                (ActiveOverlay::Log(a), ActiveOverlay::Log(b)) => b == LogOverlay { scroll: 0, ..a },
                (a, b) => !(a is Log) && a == b,
            },
            final(self).same_tree(old(self)),
    {
        match &mut self.overlay {
            ActiveOverlay::Log(o) => {
                o.scroll = 0;
            },
            _ => {},
        }
    }

    /// Scrolls so that the last line is at the bottom of a view `visible_height` lines high.
    pub fn scroll_log_to_bottom(&mut self, visible_height: usize)
        ensures
            match (old(self).overlay, final(self).overlay) {
                (ActiveOverlay::Log(a), ActiveOverlay::Log(b)) => b == LogOverlay {
                    scroll: if a.lines@.len() >= visible_height { (a.lines@.len() - visible_height) as usize } else { 0 },
                    ..a
                },
                (a, b) => !(a is Log) && a == b,
            },
            final(self).same_tree(old(self)),
    {
        match &mut self.overlay {
            ActiveOverlay::Log(o) => {
                o.scroll = o.lines.len().saturating_sub(visible_height);
            },
            _ => {},
        }
    }

    pub fn has_detail_overlay(&self) -> (r: bool)
        ensures
            r == self.overlay is Detail,
    {
        match self.overlay {
            ActiveOverlay::Detail(_) => true,
            _ => false,
        }
    }

    /// Opens the detail overlay, replacing any open overlay.
    pub fn open_detail_overlay(&mut self, title: String, lines: Vec<(String, String)>)
        ensures
            final(self).overlay == ActiveOverlay::Detail(DetailOverlay { title, lines }),
            final(self).same_tree(old(self)),
    {
        self.overlay = ActiveOverlay::Detail(DetailOverlay { title, lines });
    }

    pub fn close_detail_overlay(&mut self)
        ensures
            old(self).overlay is Detail ==> final(self).overlay is Closed,
            !(old(self).overlay is Detail) ==> final(self).overlay == old(self).overlay,
            final(self).same_tree(old(self)),
    {
        if self.has_detail_overlay() {
            self.overlay = ActiveOverlay::Closed;
        }
    }

    pub fn has_confirm_overlay(&self) -> (r: bool)
        ensures
            r == self.overlay is Confirm,
    {
        match self.overlay {
            ActiveOverlay::Confirm(_) => true,
            _ => false,
        }
    }

    /// The action awaiting confirmation, if the confirm overlay is open.
    pub fn confirm_action(&self) -> (r: Option<ConfirmAction>)
        ensures
            r == match self.overlay {
                ActiveOverlay::Confirm(o) => Some(o.action),
                _ => None,
            },
    {
        match &self.overlay {
            ActiveOverlay::Confirm(o) => Some(o.action),
            _ => None,
        }
    }

    /// Opens the confirm overlay, replacing any open overlay.
    pub fn open_confirm_overlay(&mut self, title: String, message: String, action: ConfirmAction)
        ensures
            final(self).overlay == ActiveOverlay::Confirm(ConfirmOverlay { title, message, action }),
            final(self).same_tree(old(self)),
    {
        self.overlay = ActiveOverlay::Confirm(ConfirmOverlay { title, message, action });
    }

    pub fn close_confirm_overlay(&mut self)
        ensures
            old(self).overlay is Confirm ==> final(self).overlay is Closed,
            !(old(self).overlay is Confirm) ==> final(self).overlay == old(self).overlay,
            final(self).same_tree(old(self)),
    {
        if self.has_confirm_overlay() {
            self.overlay = ActiveOverlay::Closed;
        }
    }

    pub fn log_overlay_ref(&self) -> (r: Option<&LogOverlay>)
        ensures
            r == match self.overlay {
                ActiveOverlay::Log(o) => Some(&o),
                _ => None,
            },
    {
        match &self.overlay {
            ActiveOverlay::Log(o) => Some(o),
            _ => None,
        }
    }

    /// The lines of the log overlay joined with newlines.
    pub fn log_overlay_text(&self) -> (r: Option<String>)
        ensures
            r is Some == self.overlay is Log,
            r is Some ==> r->0@ == join_spec(texts(self.overlay->Log_0.lines@)),
    {
        match &self.overlay {
            ActiveOverlay::Log(o) => Some(join_lines(&o.lines)),
            _ => None,
        }
    }

    /// Records a sticky error for one run, replacing an earlier one.
    pub fn set_run_error(&mut self, run_id: u64, error: String)
        ensures
            final(self).run_errors@ == old(self).run_errors@.filter(error_other_run(run_id)).push((run_id, error)),
            final(self).same_tree(old(self)),
    {
        let mut taken: Vec<(u64, String)> = Vec::new();
        std::mem::swap(&mut taken, &mut self.run_errors);
        self.run_errors = retain_where(
            taken,
            &run_id,
            error_of_other_run,
            Ghost(error_other_run(run_id)),
        );
        self.run_errors.push((run_id, error));
    }

    /// The sticky error of a run, if any.
    pub fn run_error(&self, run_id: u64) -> (r: Option<&str>)
        ensures
            r is Some == exists|k: int| 0 <= k < self.run_errors@.len() && (#[trigger] self.run_errors@[k]).0 == run_id,
            r is Some ==> exists|k: int| 0 <= k < self.run_errors@.len() && (#[trigger] self.run_errors@[k]).0 == run_id
                && self.run_errors@[k].1@ == r->0@,
    {
        let mut i: usize = 0;
        while i < self.run_errors.len()
            invariant
                i <= self.run_errors@.len(),
                forall|k: int| 0 <= k < i ==> (#[trigger] self.run_errors@[k]).0 != run_id,
            decreases self.run_errors@.len() - i,
        {
            if self.run_errors[i].0 == run_id {
                return Some(self.run_errors[i].1.as_str());
            }
            i = i + 1;
        }
        None
    }

    /// The index of the first run with this id.
    fn position_of_run(&self, run_id: u64) -> (r: Option<usize>)
        ensures
            r matches Some(i) ==> i == run_index(self.runs@, run_id),
            r is None ==> run_index(self.runs@, run_id) == -1,
    {
        let mut i: usize = 0;
        while i < self.runs.len()
            invariant
                i <= self.runs@.len(),
                run_index(self.runs@.subrange(0, i as int), run_id) == -1,
            decreases self.runs@.len() - i,
        {
            proof {
                assert(self.runs@.subrange(0, i + 1).drop_last() =~= self.runs@.subrange(0, i as int));
            }
            if self.runs[i].database_id == run_id {
                proof {
                    lemma_run_index_prefix(self.runs@, i as int + 1, run_id);
                }
                return Some(i);
            }
            i = i + 1;
        }
        proof {
            assert(self.runs@.subrange(0, i as int) =~= self.runs@);
        }
        None
    }

    /// Removes the run with this id: drops it from the run list, the
    /// expansion sets, the log cache and the run errors, closes an overlay
    /// that refers to it, and rebuilds the tree. Unknown ids change nothing.
    pub fn remove_run(&mut self, run_id: u64)
        ensures
            run_index(old(self).runs@, run_id) == -1 ==> untouched(old(self), final(self))
                && final(self).overlay == old(self).overlay && final(self).log_cache@ == old(self).log_cache@
                && final(self).run_errors@ == old(self).run_errors@,
            run_index(old(self).runs@, run_id) >= 0 ==> {
                &&& final(self).runs@ == old(self).runs@.remove(run_index(old(self).runs@, run_id))
                &&& seq_set_remove(old(self).expanded_runs@, final(self).expanded_runs@, run_id)
                &&& pairs_without_run(old(self).expanded_jobs@, final(self).expanded_jobs@, run_id)
                &&& final(self).log_cache@ == old(self).log_cache@.filter(cache_other_run(run_id))
                &&& final(self).run_errors@ == old(self).run_errors@.filter(error_other_run(run_id))
                &&& if overlay_refers_to(old(self).overlay, run_id) {
                    final(self).overlay is Closed
                } else {
                    final(self).overlay == old(self).overlay
                }
                &&& final(self).filter == old(self).filter
                &&& final(self).tree_consistent()
            },
            final(self).notifications@ == old(self).notifications@,
    {
        let idx = match self.position_of_run(run_id) {
            Some(i) => i,
            None => {
                return;
            },
        };
        proof {
            lemma_run_index_bounds(self.runs@, run_id);
        }
        self.runs.remove(idx);
        self.collapse_run_from_expanded(run_id);
        self.forget_logs_of(run_id);
        let mut taken: Vec<(u64, String)> = Vec::new();
        std::mem::swap(&mut taken, &mut self.run_errors);
        self.run_errors = retain_where(
            taken,
            &run_id,
            error_of_other_run,
            Ghost(error_other_run(run_id)),
        );
        let should_close = match &self.overlay {
            ActiveOverlay::Log(o) => o.run_id == run_id,
            ActiveOverlay::Confirm(o) => o.action.run_id() == run_id,
            _ => false,
        };
        if should_close {
            self.overlay = ActiveOverlay::Closed;
        }
        self.rebuild_tree();
    }
}

/// Every step row of a job with `n` steps points at one of them.
pub proof fn lemma_step_rows_resolve(s: &AppState, run_idx: int, job_idx: int, n: int)
    requires
        0 <= run_idx < s.runs@.len(),
        s.runs@[run_idx].jobs is Some,
        0 <= job_idx < s.runs@[run_idx].jobs->0@.len(),
        0 <= n <= s.runs@[run_idx].jobs->0@[job_idx].steps@.len(),
    ensures
        forall|k: int| 0 <= k < step_rows(run_idx, job_idx, n).len() ==> s.item_resolves(#[trigger] step_rows(run_idx, job_idx, n)[k]),
    decreases n,
{
    assert(s.runs@.len() == s.runs.len());
    assert(s.runs@[run_idx].jobs->0@.len() == s.runs@[run_idx].jobs->0.len());
    assert(s.runs@[run_idx].jobs->0@[job_idx].steps@.len() == s.runs@[run_idx].jobs->0@[job_idx].steps.len());
    if n > 0 {
        lemma_step_rows_resolve(s, run_idx, job_idx, n - 1);
        let prev = step_rows(run_idx, job_idx, n - 1);
        assert forall|k: int| 0 <= k < step_rows(run_idx, job_idx, n).len() implies s.item_resolves(
            #[trigger] step_rows(run_idx, job_idx, n)[k],
        ) by {
            if k < prev.len() {
                assert(step_rows(run_idx, job_idx, n)[k] == prev[k]);
            } else {
                assert(step_rows(run_idx, job_idx, n)[k] == step_row(run_idx, job_idx, n - 1));
            }
        }
    }
}

/// Every row of the first `n` jobs of a run points at a live job or step.
pub proof fn lemma_job_rows_resolve(s: &AppState, run_idx: int, n: int)
    requires
        0 <= run_idx < s.runs@.len(),
        s.runs@[run_idx].jobs is Some,
        0 <= n <= s.runs@[run_idx].jobs->0@.len(),
    ensures
        forall|k: int| 0 <= k < s.job_rows(run_idx, n).len() ==> s.item_resolves(#[trigger] s.job_rows(run_idx, n)[k]),
    decreases n,
{
    assert(s.runs@.len() == s.runs.len());
    assert(s.runs@[run_idx].jobs->0@.len() == s.runs@[run_idx].jobs->0.len());
    if n > 0 {
        lemma_job_rows_resolve(s, run_idx, n - 1);
        let job = s.runs@[run_idx].jobs->0@[n - 1];
        let prev = s.job_rows(run_idx, n - 1);
        let block = s.job_block(run_idx, n - 1);
        if job.database_id is Some {
            lemma_step_rows_resolve(s, run_idx, n - 1, job.steps@.len() as int);
        }
        assert forall|k: int| 0 <= k < s.job_rows(run_idx, n).len() implies s.item_resolves(#[trigger] s.job_rows(run_idx, n)[k]) by {
            if k >= prev.len() {
                let m = k - prev.len();
                if m > 0 {
                    assert(block[m] == step_rows(run_idx, n - 1, job.steps@.len() as int)[m - 1]);
                }
            }
        }
    }
}

/// Law: every row of the tree projection points at a live run, job or step
/// of the current data: the projection never holds a dangling index.
pub proof fn lemma_tree_rows_resolve(s: &AppState, n: int)
    requires
        0 <= n <= s.runs@.len(),
    ensures
        forall|k: int| 0 <= k < s.rows_upto(n).len() ==> s.item_resolves(#[trigger] s.rows_upto(n)[k]),
    decreases n,
{
    assert(s.runs@.len() == s.runs.len());
    if n > 0 {
        lemma_tree_rows_resolve(s, n - 1);
        let run = s.runs@[n - 1];
        let prev = s.rows_upto(n - 1);
        let block = s.run_block(n - 1);
        if run.jobs is Some {
            lemma_job_rows_resolve(s, n - 1, run.jobs->0@.len() as int);
        }
        assert forall|k: int| 0 <= k < s.rows_upto(n).len() implies s.item_resolves(#[trigger] s.rows_upto(n)[k]) by {
            if k >= prev.len() {
                let m = k - prev.len();
                if m > 0 && run.jobs is Some && s.expanded_runs@.contains(run.database_id) {
                    let jr = s.job_rows(n - 1, run.jobs->0@.len() as int);
                    if !(jr.len() == 0 && run.jobs->0@.len() > 0) {
                        assert(block[m] == jr[m - 1]);
                    }
                }
            }
        }
    }
}

/// Run ids are unique in the list.
pub open spec fn unique_ids(runs: Seq<WorkflowRun>) -> bool {
    forall|i: int, j: int| 0 <= i < runs.len() && 0 <= j < runs.len() && i != j ==> (#[trigger] runs[i]).database_id
        != (#[trigger] runs[j]).database_id
}

/// Law: when run ids are unique, removing a run by id leaves no run with
/// that id.
pub proof fn lemma_removed_run_is_gone(runs: Seq<WorkflowRun>, run_id: u64)
    requires
        unique_ids(runs),
        run_index(runs, run_id) >= 0,
    ensures
        forall|k: int| 0 <= k < runs.remove(run_index(runs, run_id)).len() ==> (#[trigger] runs.remove(
            run_index(runs, run_id),
        )[k]).database_id != run_id,
{
    lemma_run_index_bounds(runs, run_id);
    let idx = run_index(runs, run_id);
    let rest = runs.remove(idx);
    assert forall|k: int| 0 <= k < rest.len() implies (#[trigger] rest[k]).database_id != run_id by {
        if k < idx {
            assert(rest[k] == runs[k]);
        } else {
            assert(rest[k] == runs[k + 1]);
        }
    }
}

/// Law: cycling the filter three times comes back to where it started.
pub proof fn lemma_filter_cycle_returns(f: FilterMode)
    ensures
        next_filter(next_filter(next_filter(f))) == f,
{
}

/// Law: after collapsing a run, no job of that run is left expanded.
pub proof fn lemma_collapse_cascades(old_jobs: Seq<(u64, u64)>, new_jobs: Seq<(u64, u64)>, run_id: u64)
    requires
        pairs_without_run(old_jobs, new_jobs, run_id),
    ensures
        forall|k: int| 0 <= k < new_jobs.len() ==> (#[trigger] new_jobs[k]).0 != run_id,
{
    assert forall|k: int| 0 <= k < new_jobs.len() implies (#[trigger] new_jobs[k]).0 != run_id by {
        assert(new_jobs.contains(new_jobs[k]));
    }
}

/// The run-row count never decreases along the rows.
pub proof fn lemma_run_count_monotone(items: Seq<TreeItem>, i: int, j: int)
    requires
        0 <= i <= j,
    ensures
        run_count(items, i) <= run_count(items, j),
    decreases j,
{
    if i < j {
        lemma_run_count_monotone(items, i, j - 1);
    }
}

/// Law: quick-select of a number above the count of visible run rows finds
/// no row, so the cursor stays.
pub proof fn lemma_quick_select_out_of_range(items: Seq<TreeItem>, n: int)
    requires
        n > run_count(items, items.len() as int),
    ensures
        !exists|i: int| is_nth_run_row(items, i, n),
{
    assert forall|i: int| !is_nth_run_row(items, i, n) by {
        if 0 <= i < items.len() && items[i].level == TreeLevel::Run {
            lemma_run_count_monotone(items, i + 1, items.len() as int);
        }
    }
}

/// Law: the row quick-select lands on is a run row, and exactly `n - 1`
/// run rows come before it.
pub proof fn lemma_quick_select_lands_on_run(items: Seq<TreeItem>, i: int, n: int)
    requires
        is_nth_run_row(items, i, n),
    ensures
        items[i].level == TreeLevel::Run,
        run_count(items, i) == n - 1,
        run_count(items, i + 1) == n,
{
}

} // verus!
