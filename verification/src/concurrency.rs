//! The bookkeeping of concurrent tasks: a first-in first-out queue with back pressure, the set
//! of running tasks and their results; and a table of named locks that expire.
//!
//! Running a task (spawning it, awaiting a permit and its end) is the caller's part: it takes
//! the next task with `start_next_task` and reports its end with `finish_task`.
use vstd::prelude::*;
use crate::assoc::{find, index_of, lemma_index_of, lemma_same_keys, lemma_upsert, position_of, remove_key, string_keyed, upsert};
use crate::clock::now_millis;
use crate::text::owned;

verus! {

/// The settings of the task manager.
#[derive(Debug, Clone, Copy, PartialEq, Eq, Structural)]
pub struct ConcurrencyConfig {
    pub max_concurrent_tasks: usize,
    pub worker_threads: usize,
    pub enable_work_stealing: bool,
    pub task_timeout_secs: u64,
    pub enable_backpressure: bool,
    pub max_queue_size: usize,
}

/// The settings for `cpus` processors: four tasks per processor, one worker per processor,
/// work stealing, five minutes per task, back pressure at 10000 queued tasks.
pub open spec fn config_for(cpus: usize) -> ConcurrencyConfig {
    ConcurrencyConfig {
        max_concurrent_tasks: if cpus * 4 > usize::MAX { usize::MAX } else { (cpus * 4) as usize },
        worker_threads: cpus,
        enable_work_stealing: true,
        task_timeout_secs: 300,
        enable_backpressure: true,
        max_queue_size: 10000,
    }
}

impl ConcurrencyConfig {
    /// The settings for `cpus` processors (see `config_for`); the machine's count is read
    /// where the program starts.
    pub fn for_cpus(cpus: usize) -> (r: Self)
        ensures
            r == config_for(cpus),
    {
        let max = match cpus.checked_mul(4) {
            Some(m) => m,
            None => usize::MAX,
        };
        ConcurrencyConfig {
            max_concurrent_tasks: max,
            worker_threads: cpus,
            enable_work_stealing: true,
            task_timeout_secs: 300,
            enable_backpressure: true,
            max_queue_size: 10000,
        }
    }
}

/// The priority of a task, lowest first.
#[derive(Debug, Clone, Copy, PartialEq, Eq, PartialOrd, Ord, Hash, Structural)]
pub enum TaskPriority {
    Background,
    Low,
    Normal,
    High,
    Critical,
}

impl TaskPriority {
    /// The priority as a number, from 0 (background) to 4 (critical).
    pub fn value(&self) -> (r: u8)
        ensures
            r == match *self {
                TaskPriority::Background => 0u8,
                TaskPriority::Low => 1u8,
                TaskPriority::Normal => 2u8,
                TaskPriority::High => 3u8,
                TaskPriority::Critical => 4u8,
            },
    {
        match self {
            TaskPriority::Background => 0,
            TaskPriority::Low => 1,
            TaskPriority::Normal => 2,
            TaskPriority::High => 3,
            TaskPriority::Critical => 4,
        }
    }
}

/// A task to run.
#[derive(Debug)]
pub struct AsyncTask {
    pub id: String,
    pub name: String,
    pub priority: TaskPriority,
    /// Unix seconds.
    pub created_at: i64,
    pub agent_name: Option<String>,
    pub metadata: Vec<(String, String)>,
}

/// How a task ended.
#[derive(Debug)]
pub struct TaskResult {
    pub task_id: String,
    pub success: bool,
    pub duration_ms: u64,
    pub error: Option<String>,
}

/// The abstract value of a result (its task id is its key).
pub struct ResultView {
    pub success: bool,
    pub duration_ms: u64,
    pub error: Option<Seq<char>>,
}

pub open spec fn result_view(r: TaskResult) -> ResultView {
    ResultView {
        success: r.success,
        duration_ms: r.duration_ms,
        error: match r.error {
            Some(e) => Some(e@),
            None => None,
        },
    }
}

/// Keeps the queue of tasks, the running ones and the results.
pub struct ConcurrencyManager {
    config: ConcurrencyConfig,
    queue: Vec<AsyncTask>,
    running: Vec<(String, ())>,
    results: Vec<(String, TaskResult)>,
}

/// The abstract state of the manager: the ids of the queued tasks, oldest first; the ids of the
/// running tasks; the results by task id.
pub struct ConcurrencyView {
    pub config: ConcurrencyConfig,
    pub queue: Seq<Seq<char>>,
    pub running: Seq<(Seq<char>, ())>,
    pub results: Seq<(Seq<char>, ResultView)>,
}

pub open spec fn queue_view(q: Seq<AsyncTask>) -> Seq<Seq<char>> {
    Seq::new(q.len(), |i: int| q[i].id@)
}

pub open spec fn results_view(v: Seq<(String, TaskResult)>) -> Seq<(Seq<char>, ResultView)> {
    Seq::new(v.len(), |i: int| (v[i].0@, result_view(v[i].1)))
}

impl View for ConcurrencyManager {
    type V = ConcurrencyView;

    closed spec fn view(&self) -> ConcurrencyView {
        ConcurrencyView {
            config: self.config,
            queue: queue_view(self.queue@),
            running: string_keyed(self.running@),
            results: results_view(self.results@),
        }
    }
}

/// Whether a task is refused: back pressure is on and the queue is full.
pub open spec fn queue_full(v: ConcurrencyView) -> bool {
    v.config.enable_backpressure && v.queue.len() >= v.config.max_queue_size
}

impl ConcurrencyManager {
    /// A manager with nothing queued or running.
    pub fn new(config: ConcurrencyConfig) -> (r: Self)
        ensures
            r@.config == config,
            r@.queue.len() == 0 && r@.running.len() == 0 && r@.results.len() == 0,
    {
        let r = ConcurrencyManager { config, queue: Vec::new(), running: Vec::new(), results: Vec::new() };
        assert(r@.queue =~= seq![]);
        assert(r@.running =~= seq![]);
        assert(r@.results =~= seq![]);
        r
    }

    /// Queues a task at the back, unless back pressure refuses it.
    pub fn submit_task(&mut self, task: AsyncTask) -> (r: Result<(), String>)
        ensures
            queue_full(old(self)@) ==> (r matches Err(e) && e@ == "Task queue full"@) && final(self)@ == old(self)@,
            !queue_full(old(self)@) ==> r is Ok && final(self)@ == (ConcurrencyView { queue: old(self)@.queue.push(task.id@), ..old(self)@ }),
    {
        if self.config.enable_backpressure && self.queue.len() >= self.config.max_queue_size {
            return Err(owned("Task queue full"));
        }
        let ghost id = task.id@;
        self.queue.push(task);
        assert(queue_view(self.queue@) =~= queue_view(old(self).queue@).push(id));
        Ok(())
    }

    /// Takes the oldest queued task and counts it as running.
    pub fn start_next_task(&mut self) -> (r: Option<AsyncTask>)
        ensures
            old(self)@.queue.len() == 0 ==> r is None && final(self)@ == old(self)@,
            old(self)@.queue.len() > 0 ==> (r matches Some(t) && t.id@ == old(self)@.queue[0] && final(self)@ == (ConcurrencyView {
                queue: old(self)@.queue.drop_first(),
                running: upsert(old(self)@.running, t.id@, ()),
                ..old(self)@
            })),
    {
        if self.queue.len() == 0 {
            return None;
        }
        let task = self.queue.remove(0);
        assert(queue_view(self.queue@) =~= queue_view(old(self).queue@).drop_first());
        let ghost rv = string_keyed(self.running@);
        let pos = position_of(&self.running, task.id.as_str());
        match pos {
            Some(i) => {
                let key = task.id.clone();
                self.running.set(i, (key, ()));
                assert(string_keyed(self.running@) =~= rv.update(i as int, (task.id@, ())));
            },
            None => {
                self.running.push((task.id.clone(), ()));
                assert(string_keyed(self.running@) =~= rv.push((task.id@, ())));
            },
        }
        Some(task)
    }

    /// Records how a task ended; it no longer counts as running.
    pub fn finish_task(&mut self, task_id: &str, success: bool, duration_ms: u64, error: Option<String>) -> (r: ())
        ensures
            final(self)@ == (ConcurrencyView {
                running: remove_key(old(self)@.running, task_id@),
                results: upsert(
                    old(self)@.results,
                    task_id@,
                    ResultView {
                        success,
                        duration_ms,
                        error: match error {
                            Some(e) => Some(e@),
                            None => None,
                        },
                    },
                ),
                ..old(self)@
            }),
    {
        let result = TaskResult { task_id: owned(task_id), success, duration_ms, error };
        let ghost nv = result_view(result);
        let ghost resv = results_view(self.results@);
        let pos = position_of(&self.results, task_id);
        proof {
            lemma_same_keys(string_keyed(self.results@), resv, task_id@);
        }
        match pos {
            Some(i) => {
                self.results.set(i, (owned(task_id), result));
                assert(results_view(self.results@) =~= resv.update(i as int, (task_id@, nv)));
            },
            None => {
                self.results.push((owned(task_id), result));
                assert(results_view(self.results@) =~= resv.push((task_id@, nv)));
            },
        }
        let ghost runv = string_keyed(self.running@);
        if let Some(i) = position_of(&self.running, task_id) {
            self.running.remove(i);
            assert(string_keyed(self.running@) =~= runv.remove(i as int));
        }
    }

    /// The result of a task that ended.
    pub fn get_task_result(&self, task_id: &str) -> (r: Option<TaskResult>)
        ensures
            match find(self@.results, task_id@) {
                Some(v) => r matches Some(t) && result_view(t) == v && t.task_id@ == task_id@,
                None => r is None,
            },
    {
        let pos = position_of(&self.results, task_id);
        proof {
            lemma_same_keys(string_keyed(self.results@), self@.results, task_id@);
        }
        match pos {
            None => None,
            Some(i) => {
                let t = &self.results[i].1;
                Some(TaskResult {
                    task_id: owned(task_id),
                    success: t.success,
                    duration_ms: t.duration_ms,
                    error: match &t.error {
                        Some(e) => Some(e.clone()),
                        None => None,
                    },
                })
            },
        }
    }

    /// How many tasks are queued.
    pub fn queue_length(&self) -> (r: usize)
        ensures
            r == self@.queue.len(),
    {
        self.queue.len()
    }

    /// How many tasks are running.
    pub fn running_count(&self) -> (r: usize)
        ensures
            r == self@.running.len(),
    {
        self.running.len()
    }

    /// Whether every task has ended: nothing queued or running (what waiting for all tasks
    /// waits for).
    pub fn all_done(&self) -> (r: bool)
        ensures
            r == (self@.queue.len() == 0 && self@.running.len() == 0),
    {
        self.queue.len() == 0 && self.running.len() == 0
    }

    /// Cancels a running task: it no longer counts as running.
    pub fn cancel_task(&mut self, task_id: &str) -> (r: Result<(), String>)
        ensures
            index_of(old(self)@.running, task_id@) is None ==> (r matches Err(e) && e@ == "Task not found: "@ + task_id@)
                && final(self)@ == old(self)@,
            index_of(old(self)@.running, task_id@) is Some ==> r is Ok && final(self)@ == (ConcurrencyView {
                running: remove_key(old(self)@.running, task_id@),
                ..old(self)@
            }),
    {
        let ghost runv = string_keyed(self.running@);
        match position_of(&self.running, task_id) {
            Some(i) => {
                self.running.remove(i);
                assert(string_keyed(self.running@) =~= runv.remove(i as int));
                Ok(())
            },
            None => {
                let mut m: Vec<char> = Vec::new();
                crate::text::push_str(&mut m, "Task not found: ");
                crate::text::push_str(&mut m, task_id);
                Err(crate::text::string_of(&m))
            },
        }
    }
}

/// Tasks start in the order they were queued: after queuing `id` behind `queue`, the tasks
/// started first are those of `queue`, and `id` is started when they are.
pub proof fn law_first_in_first_out(queue: Seq<Seq<char>>, id: Seq<char>)
    ensures
        queue.len() > 0 ==> queue.push(id)[0] == queue[0] && queue.push(id).drop_first() == queue.drop_first().push(id),
        queue.len() == 0 ==> queue.push(id)[0] == id,
{
    if queue.len() > 0 {
        assert(queue.push(id).drop_first() =~= queue.drop_first().push(id));
    }
}

/// With back pressure on, the queue never grows past its limit.
pub proof fn law_queue_bounded(v: ConcurrencyView, id: Seq<char>)
    requires
        v.config.enable_backpressure,
        v.queue.len() <= v.config.max_queue_size,
    ensures
        !queue_full(v) ==> v.queue.push(id).len() <= v.config.max_queue_size,
{
}

/// A table of named locks, each held until it is released or its time runs out.
pub struct DistributedLock {
    locks: Vec<(String, i64)>,
    ttl_secs: u64,
}

/// The abstract value of the lock table: when each lock expires (Unix milliseconds), and how
/// long a lock lasts.
pub struct LockTableView {
    pub expiries: Seq<(Seq<char>, i64)>,
    pub ttl_secs: u64,
}

/// `now` plus `secs` seconds, in milliseconds, at most `i64::MAX`.
pub open spec fn expiry(now: int, secs: u64) -> i64 {
    let t = now + secs * 1000;
    if t > i64::MAX { i64::MAX } else { t as i64 }
}

/// Whether `name` is held at `now`: it has an expiry still ahead.
pub open spec fn held(v: LockTableView, name: Seq<char>, now: int) -> bool {
    find(v.expiries, name) matches Some(e) && now < e
}

/// Taking lock `name` at `now`: whether it was free, and the table after.
pub open spec fn acquired(v: LockTableView, name: Seq<char>, now: int) -> (bool, LockTableView) {
    if held(v, name, now) {
        (false, v)
    } else {
        (true, LockTableView { expiries: upsert(v.expiries, name, expiry(now, v.ttl_secs)), ..v })
    }
}

impl View for DistributedLock {
    type V = LockTableView;

    closed spec fn view(&self) -> LockTableView {
        LockTableView { expiries: string_keyed(self.locks@), ttl_secs: self.ttl_secs }
    }
}

impl DistributedLock {
    /// No lock name appears twice.
    #[verifier::type_invariant]
    spec fn names_once(&self) -> bool {
        distinct_names(self@.expiries)
    }

    fn take_locks(&mut self) -> (r: Vec<(String, i64)>)
        ensures
            r@ == old(self).locks@,
            final(self).locks@.len() == 0,
            final(self).ttl_secs == old(self).ttl_secs,
    {
        let mut locks: Vec<(String, i64)> = Vec::new();
        std::mem::swap(&mut locks, &mut self.locks);
        locks
    }

    /// A table with no lock held; locks last `ttl_secs` seconds.
    pub fn new(ttl_secs: u64) -> (r: Self)
        ensures
            r@.expiries.len() == 0,
            r@.ttl_secs == ttl_secs,
    {
        let r = DistributedLock { locks: Vec::new(), ttl_secs };
        assert(r@.expiries =~= seq![]);
        r
    }

    /// Takes lock `lock_name` at `now` (Unix milliseconds) unless it is held; true when taken.
    pub fn acquire_at(&mut self, lock_name: &str, now: i64) -> (r: bool)
        ensures
            (r, final(self)@) == acquired(old(self)@, lock_name@, now as int),
    {
        proof {
            use_type_invariant(&*self);
        }
        let ghost lv = string_keyed(self.locks@);
        let pos = position_of(&self.locks, lock_name);
        proof {
            lemma_index_of(lv, lock_name@);
        }
        if let Some(i) = pos {
            if now < self.locks[i].1 {
                return false;
            }
        }
        let t: i128 = now as i128 + (self.ttl_secs as i128) * 1000;
        let expire_at: i64 = if t > i64::MAX as i128 { i64::MAX } else { t as i64 };
        proof {
            crate::assoc::lemma_distinct_keys(lv, lock_name@, expire_at, match pos { Some(i) => i as int, None => 0 });
        }
        let mut locks = self.take_locks();
        match pos {
            Some(i) => {
                locks.set(i, (owned(lock_name), expire_at));
                assert(string_keyed(locks@) =~= lv.update(i as int, (lock_name@, expire_at)));
            },
            None => {
                locks.push((owned(lock_name), expire_at));
                assert(string_keyed(locks@) =~= lv.push((lock_name@, expire_at)));
            },
        }
        self.locks = locks;
        true
    }

    /// Takes lock `lock_name` now unless it is held.
    pub fn acquire(&mut self, lock_name: &str) -> (r: Result<bool, String>)
        ensures
            r is Ok,
            exists|t: i64| (r->Ok_0, final(self)@) == #[trigger] acquired(old(self)@, lock_name@, t as int),
    {
        let now = now_millis();
        Ok(self.acquire_at(lock_name, now))
    }

    /// Releases lock `lock_name`: it is then not held at any time.
    pub fn release(&mut self, lock_name: &str) -> (r: Result<(), String>)
        ensures
            r is Ok,
            final(self)@ == (LockTableView { expiries: remove_key(old(self)@.expiries, lock_name@), ..old(self)@ }),
            forall|t: int| !held(final(self)@, lock_name@, t),
    {
        proof {
            use_type_invariant(&*self);
            lemma_release_frees(self@, lock_name@);
        }
        let ghost lv = string_keyed(self.locks@);
        if let Some(i) = position_of(&self.locks, lock_name) {
            proof {
                crate::assoc::lemma_distinct_keys(lv, lock_name@, 0i64, i as int);
            }
            let mut locks = self.take_locks();
            locks.remove(i);
            assert(string_keyed(locks@) =~= lv.remove(i as int));
            self.locks = locks;
        }
        Ok(())
    }
}

/// A lock just taken is held until its time runs out: taking it again before then fails.
pub proof fn law_lock_excludes(v: LockTableView, name: Seq<char>, now: int, later: int)
    requires
        !held(v, name, now),
        now <= later < expiry(now, v.ttl_secs),
    ensures
        held(LockTableView { expiries: upsert(v.expiries, name, expiry(now, v.ttl_secs)), ..v }, name, later),
{
    lemma_upsert(v.expiries, name, expiry(now, v.ttl_secs));
}

proof fn lemma_release_frees(v: LockTableView, name: Seq<char>)
    requires
        distinct_names(v.expiries),
    ensures
        find(remove_key(v.expiries, name), name) is None,
{
    lemma_index_of(v.expiries, name);
    if let Some(i) = index_of(v.expiries, name) {
        crate::assoc::lemma_removed_absent(v.expiries, i);
    }
}

/// No lock name appears twice in the table.
pub open spec fn distinct_names(e: Seq<(Seq<char>, i64)>) -> bool {
    crate::assoc::distinct_keys(e)
}

} // verus!
