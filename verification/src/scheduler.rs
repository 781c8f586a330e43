use vstd::prelude::*;

use crate::interfaces::{Address, Bytes32, ExecutionWindow, ScheduledTaskStatus, SchedulerError};

verus! {

/// Longest task name accepted, in bytes.
pub const MAX_TASK_NAME_LEN: usize = 64;

/// A scheduled task that coordinates protocol operations.
pub struct ScheduledTask {
    /// Unique identifier for the task.
    pub id: Bytes32,
    /// Human-readable name for the task.
    pub name: Vec<u8>,
    /// Priority (higher = executed first when multiple tasks are ready).
    pub priority: u32,
    /// Execution window for the task.
    pub window: ExecutionWindow,
    /// Contract address to call.
    pub target_contract: Address,
    /// Function symbol to call.
    pub target_function: String,
    /// Arguments for the function, each in its XDR encoding.
    pub args: Vec<Vec<u8>>,
    /// Ids of the tasks that must have run before this one.
    pub dependencies: Vec<Bytes32>,
    /// Current status of the task.
    pub status: ScheduledTaskStatus,
    /// Number of times the task has executed.
    pub execution_count: u32,
    /// Timestamp when the task was created.
    pub created_at: u64,
    /// Timestamp when the task was last executed (if any).
    pub last_executed_at: Option<u64>,
}

/// A scheduled task as plain values.
pub struct TaskView {
    pub id: Bytes32,
    pub name: Seq<u8>,
    pub priority: u32,
    pub window: ExecutionWindow,
    pub target_contract: Address,
    pub target_function: Seq<char>,
    pub args: Seq<Seq<u8>>,
    pub dependencies: Seq<Bytes32>,
    pub status: ScheduledTaskStatus,
    pub execution_count: u32,
    pub created_at: u64,
    pub last_executed_at: Option<u64>,
}

impl View for ScheduledTask {
    type V = TaskView;

    open spec fn view(&self) -> TaskView {
        TaskView {
            id: self.id,
            name: self.name@,
            priority: self.priority,
            window: self.window,
            target_contract: self.target_contract,
            target_function: self.target_function@,
            args: self.args@.map_values(|a: Vec<u8>| a@),
            dependencies: self.dependencies@,
            status: self.status,
            execution_count: self.execution_count,
            created_at: self.created_at,
            last_executed_at: self.last_executed_at,
        }
    }
}

fn copy_bytes(v: &Vec<u8>) -> (c: Vec<u8>)
    ensures
        c@ == v@,
{
    let mut c: Vec<u8> = Vec::new();
    let mut i: usize = 0;
    while i < v.len()
        invariant
            0 <= i <= v@.len(),
            c@ == v@.take(i as int),
        decreases v.len() - i,
    {
        c.push(v[i]);
        i = i + 1;
        assert(c@ =~= v@.take(i as int));
    }
    assert(v@.take(i as int) =~= v@);
    c
}

fn copy_ids(v: &Vec<Bytes32>) -> (c: Vec<Bytes32>)
    ensures
        c@ == v@,
{
    let mut c: Vec<Bytes32> = Vec::new();
    let mut i: usize = 0;
    while i < v.len()
        invariant
            0 <= i <= v@.len(),
            c@ == v@.take(i as int),
        decreases v.len() - i,
    {
        c.push(v[i]);
        i = i + 1;
        assert(c@ =~= v@.take(i as int));
    }
    assert(v@.take(i as int) =~= v@);
    c
}

fn copy_args(v: &Vec<Vec<u8>>) -> (c: Vec<Vec<u8>>)
    ensures
        c@.map_values(|a: Vec<u8>| a@) == v@.map_values(|a: Vec<u8>| a@),
{
    let mut c: Vec<Vec<u8>> = Vec::new();
    let mut i: usize = 0;
    while i < v.len()
        invariant
            0 <= i <= v@.len(),
            c@.len() == i,
            forall|k: int| 0 <= k < i ==> (#[trigger] c@[k])@ == v@[k]@,
        decreases v.len() - i,
    {
        c.push(copy_bytes(&v[i]));
        i = i + 1;
    }
    assert(c@.map_values(|a: Vec<u8>| a@) =~= v@.map_values(|a: Vec<u8>| a@));
    c
}

impl ScheduledTask {
    /// A copy of the task.
    pub fn copy(&self) -> (c: Self)
        ensures
            c@ == self@,
    {
        ScheduledTask {
            id: self.id,
            name: copy_bytes(&self.name),
            priority: self.priority,
            window: self.window,
            target_contract: self.target_contract,
            target_function: self.target_function.clone(),
            args: copy_args(&self.args),
            dependencies: copy_ids(&self.dependencies),
            status: self.status,
            execution_count: self.execution_count,
            created_at: self.created_at,
            last_executed_at: self.last_executed_at,
        }
    }
}

// ---------------------------------------------------------------------------
// The task store as plain values
// ---------------------------------------------------------------------------

pub open spec fn views(tasks: Seq<ScheduledTask>) -> Seq<TaskView> {
    tasks.map_values(|t: ScheduledTask| t@)
}

/// No two stored tasks share an id.
pub open spec fn ids_unique(s: Seq<TaskView>) -> bool {
    forall|i: int, j: int| 0 <= i < s.len() && 0 <= j < s.len() && i != j ==> s[i].id != s[j].id
}

pub open spec fn has_id(s: Seq<TaskView>, id: Bytes32) -> bool {
    exists|i: int| 0 <= i < s.len() && (#[trigger] s[i]).id == id
}

/// The position of the stored task with the given id.
pub open spec fn index_of(s: Seq<TaskView>, id: Bytes32) -> int {
    choose|i: int| 0 <= i < s.len() && (#[trigger] s[i]).id == id
}

/// The store after writing `t`: it replaces the task with its id, or is appended.
pub open spec fn spec_set_task(s: Seq<TaskView>, t: TaskView) -> Seq<TaskView> {
    if has_id(s, t.id) {
        s.update(index_of(s, t.id), t)
    } else {
        s.push(t)
    }
}

/// Every dependency is stored and has succeeded.
pub open spec fn deps_met(s: Seq<TaskView>, deps: Seq<Bytes32>) -> bool {
    forall|k: int|
        0 <= k < deps.len() ==> has_id(s, #[trigger] deps[k]) && s[index_of(s, deps[k])].status
            == ScheduledTaskStatus::Success
}

/// Whether a task may run at time `now`.
pub open spec fn spec_is_ready(s: Seq<TaskView>, t: TaskView, now: u64) -> bool {
    &&& t.status == ScheduledTaskStatus::Pending
    &&& t.window.start_time <= now <= t.window.end_time
    &&& !(t.window.max_recurrences matches Some(m) && t.execution_count >= m)
    &&& deps_met(s, t.dependencies)
}

/// Whether a task runs again after an execution.
pub open spec fn spec_should_recur(t: TaskView) -> bool {
    &&& t.window.recurrence_interval is Some
    &&& !(t.window.max_recurrences matches Some(m) && t.execution_count >= m)
}

/// Why a task is rejected, if it is.
pub open spec fn spec_validate_task(t: TaskView) -> Result<(), SchedulerError> {
    if t.name.len() == 0 || t.name.len() > MAX_TASK_NAME_LEN {
        Err(SchedulerError::InvalidTaskName)
    } else if t.window.start_time >= t.window.end_time {
        Err(SchedulerError::InvalidExecutionWindow)
    } else {
        Ok(())
    }
}

/// The task as recorded after an execution attempt at `now` that succeeded or not.
pub open spec fn spec_after_execution(t: TaskView, success: bool, now: u64) -> TaskView {
    let counted = TaskView {
        last_executed_at: Some(now),
        execution_count: (t.execution_count + 1) as u32,
        ..t
    };
    TaskView {
        status: if success {
            if spec_should_recur(counted) {
                ScheduledTaskStatus::Pending
            } else {
                ScheduledTaskStatus::Success
            }
        } else {
            ScheduledTaskStatus::Failed
        },
        ..counted
    }
}

/// `p` maps `n` output positions one-to-one onto `n` input positions.
pub open spec fn is_permutation_map(p: Seq<int>, n: int) -> bool {
    &&& p.len() == n
    &&& forall|k: int| 0 <= k < n ==> 0 <= #[trigger] p[k] < n
    &&& forall|k: int, l: int| 0 <= k < n && 0 <= l < n && k != l ==> p[k] != p[l]
}

/// `output` orders `input` by descending priority, keeping the input order among equal priorities.
pub open spec fn is_stable_priority_sort(input: Seq<TaskView>, output: Seq<TaskView>) -> bool {
    &&& output.len() == input.len()
    &&& exists|p: Seq<int>|
        {
            &&& is_permutation_map(p, input.len() as int)
            &&& forall|k: int| 0 <= k < output.len() ==> #[trigger] output[k] == input[p[k]]
            &&& forall|k: int, l: int|
                0 <= k < l < output.len() && output[k].priority == output[l].priority ==> p[k] < p[l]
        }
    &&& forall|k: int, l: int| 0 <= k < l < output.len() ==> output[k].priority >= output[l].priority
}

/// The tasks of the store that may run at `now`, in store order.
pub open spec fn ready_in_store_order(s: Seq<TaskView>, now: u64) -> Seq<TaskView>
    decreases s.len(),
{
    ready_among(s, s, now)
}

/// The tasks of `part` that may run at `now` given the store `s`, in order.
pub open spec fn ready_among(s: Seq<TaskView>, part: Seq<TaskView>, now: u64) -> Seq<TaskView>
    decreases part.len(),
{
    if part.len() == 0 {
        Seq::empty()
    } else {
        let rest = ready_among(s, part.drop_last(), now);
        if spec_is_ready(s, part.last(), now) {
            rest.push(part.last())
        } else {
            rest
        }
    }
}

fn validate_name_and_window(task: &ScheduledTask) -> (r: Result<(), SchedulerError>)
    ensures
        r == spec_validate_task(task@),
{
    if task.name.len() == 0 || task.name.len() > MAX_TASK_NAME_LEN {
        return Err(SchedulerError::InvalidTaskName);
    }
    if task.window.start_time >= task.window.end_time {
        return Err(SchedulerError::InvalidExecutionWindow);
    }
    Ok(())
}

fn should_recur(task: &ScheduledTask) -> (b: bool)
    ensures
        b == spec_should_recur(task@),
{
    if task.window.recurrence_interval.is_none() {
        return false;
    }
    match task.window.max_recurrences {
        Some(max) => {
            if task.execution_count >= max {
                return false;
            }
        },
        None => {},
    }
    true
}

proof fn lemma_index_of(s: Seq<TaskView>, id: Bytes32, i: int)
    requires
        ids_unique(s),
        0 <= i < s.len(),
        s[i].id == id,
    ensures
        has_id(s, id),
        index_of(s, id) == i,
{
    assert(has_id(s, id));
    let j = index_of(s, id);
    assert(s[j].id == id);
}

/// Sort tasks by descending priority, keeping the given order among equal priorities.
pub fn sort_tasks_by_priority(tasks: Vec<ScheduledTask>) -> (sorted: Vec<ScheduledTask>)
    ensures
        is_stable_priority_sort(views(tasks@), views(sorted@)),
{
    let mut tasks = tasks;
    let ghost input = views(tasks@);
    let ghost mut p: Seq<int> = Seq::new(input.len(), |k: int| k);
    let n = tasks.len();
    let mut i: usize = 0;
    while i < n
        invariant
            n == tasks@.len(),
            n == input.len(),
            0 <= i <= n,
            is_permutation_map(p, n as int),
            forall|k: int| 0 <= k < n ==> #[trigger] views(tasks@)[k] == input[p[k]],
            forall|k: int, l: int|
                0 <= k < l < n && views(tasks@)[k].priority == views(tasks@)[l].priority ==> p[k] < p[l],
            forall|k: int, l: int|
                n - i <= k < l < n ==> views(tasks@)[k].priority >= views(tasks@)[l].priority,
            forall|k: int, l: int|
                0 <= k < n - i <= l < n ==> views(tasks@)[k].priority >= views(tasks@)[l].priority,
        decreases n - i,
    {
        let mut j: usize = 0;
        while j < n - i - 1
            invariant
                n == tasks@.len(),
                n == input.len(),
                0 <= i < n,
                0 <= j <= n - i - 1,
                is_permutation_map(p, n as int),
                forall|k: int| 0 <= k < n ==> #[trigger] views(tasks@)[k] == input[p[k]],
                forall|k: int, l: int|
                    0 <= k < l < n && views(tasks@)[k].priority == views(tasks@)[l].priority ==> p[k] < p[l],
                forall|k: int, l: int|
                    n - i <= k < l < n ==> views(tasks@)[k].priority >= views(tasks@)[l].priority,
                forall|k: int, l: int|
                    0 <= k < n - i <= l < n ==> views(tasks@)[k].priority >= views(tasks@)[l].priority,
                forall|k: int| 0 <= k <= j ==> views(tasks@)[k].priority >= views(tasks@)[j as int].priority,
            decreases n - i - 1 - j,
        {
            let a_priority = tasks[j].priority;
            let b_priority = tasks[j + 1].priority;
            if a_priority < b_priority {
                let ghost before = views(tasks@);
                let temp = tasks.remove(j);
                tasks.insert(j + 1, temp);
                proof {
                    let after = views(tasks@);
                    assert(after =~= before.update(j as int, before[j + 1]).update(j + 1, before[j as int]));
                    let q = p.update(j as int, p[j + 1]).update(j + 1, p[j as int]);
                    assert forall|k: int, l: int|
                        0 <= k < n && 0 <= l < n && k != l implies q[k] != q[l] by {
                        if k != j && k != j + 1 && l != j && l != j + 1 {
                            assert(p[k] != p[l]);
                        }
                    }
                    assert forall|k: int, l: int|
                        0 <= k < l < n && after[k].priority == after[l].priority implies q[k] < q[l] by {
                        if k == j as int && l == j + 1 {
                        } else if k == j as int {
                            assert(before[j + 1].priority == before[l].priority);
                        } else if k == j + 1 {
                            assert(before[j as int].priority == before[l].priority);
                        } else if l == j as int {
                            assert(before[k].priority == before[j + 1].priority);
                        } else if l == j + 1 {
                            assert(before[k].priority == before[j as int].priority);
                        } else {
                            assert(before[k].priority == before[l].priority);
                        }
                    }
                    p = q;
                }
            }
            j = j + 1;
        }
        i = i + 1;
    }
    proof {
        let out = views(tasks@);
        assert(is_permutation_map(p, input.len() as int));
        assert forall|k: int| 0 <= k < out.len() implies #[trigger] out[k] == input[p[k]] by {}
    }
    tasks
}

/// The task as stored while its call is under way.
pub open spec fn executing(t: TaskView) -> TaskView {
    TaskView { status: ScheduledTaskStatus::Executing, ..t }
}

/// Every task of `q` is a task of the store `s`, as stored there, and no two
/// tasks of `q` share an id.
pub open spec fn queue_from_store(s: Seq<TaskView>, q: Seq<TaskView>) -> bool {
    &&& ids_unique(q)
    &&& forall|k: int|
        0 <= k < q.len() ==> has_id(s, (#[trigger] q[k]).id) && s[index_of(s, q[k].id)] == q[k]
}

/// Whether the task with id `id` has had its call in a round over the queue
/// `q` whose calls so far ended as `o` says.
pub open spec fn has_run(q: Seq<TaskView>, o: Seq<bool>, id: Bytes32) -> bool {
    has_id(q, id) && index_of(q, id) < o.len()
}

/// The store `s` after the first `o.len()` tasks of the queue `q` have run at
/// `now`, the `k`-th call succeeding when `o[k]` holds: each task that ran is
/// recorded as `spec_after_execution` leaves it, every other task is unchanged.
pub open spec fn round_store(s: Seq<TaskView>, q: Seq<TaskView>, o: Seq<bool>, now: u64) -> Seq<TaskView> {
    Seq::new(
        s.len(),
        |i: int|
            if has_run(q, o, s[i].id) {
                spec_after_execution(q[index_of(q, s[i].id)], o[index_of(q, s[i].id)], now)
            } else {
                s[i]
            },
    )
}

/// The ids of the tasks of `q` whose call succeeded, in the order they ran.
pub open spec fn succeeded_ids(q: Seq<TaskView>, o: Seq<bool>) -> Seq<Bytes32>
    decreases o.len(),
{
    if o.len() == 0 {
        Seq::empty()
    } else {
        let before = succeeded_ids(q, o.drop_last());
        if o.last() {
            before.push(q[o.len() - 1].id)
        } else {
            before
        }
    }
}

/// One round of execution under way: the tasks that were ready when it
/// began, highest priority first, run one after the other; the host makes
/// each call and reports whether it succeeded.
pub struct ExecutionRound {
    /// The ledger time of the round.
    pub now: u64,
    /// The ready tasks, in the order they run.
    pub queue: Vec<ScheduledTask>,
    /// How many of them have run.
    pub done: usize,
    /// Whether the call of `queue[done]` is under way.
    pub calling: bool,
    /// Ids of the tasks whose call succeeded, in the order they ran.
    pub executed: Vec<Bytes32>,
    /// The store when the round began.
    pub start: Ghost<Seq<TaskView>>,
    /// How each call made so far ended.
    pub outcomes: Ghost<Seq<bool>>,
}

impl ExecutionRound {
    /// The queue came from the starting store, one outcome is known for each
    /// task run, and the ids collected are those of the calls that succeeded.
    pub open spec fn wf(&self) -> bool {
        &&& ids_unique(self.start@)
        &&& queue_from_store(self.start@, views(self.queue@))
        &&& self.outcomes@.len() == self.done <= self.queue@.len()
        &&& self.calling ==> self.done < self.queue@.len()
        &&& self.executed@ == succeeded_ids(views(self.queue@), self.outcomes@)
    }

    /// The engine's store is the starting store after the tasks run so far,
    /// with the task under way marked as executing.
    pub open spec fn tracks(&self, c: &SchedulerContract) -> bool {
        let done = round_store(self.start@, views(self.queue@), self.outcomes@, self.now);
        &&& self.wf()
        &&& c.wf()
        &&& c.store() == if self.calling {
            spec_set_task(done, executing(views(self.queue@)[self.done as int]))
        } else {
            done
        }
    }

    /// The ids of the tasks whose call succeeded, the result of the round.
    pub fn finish(self) -> (ids: Vec<Bytes32>)
        ensures
            ids@ == self.executed@,
            self.wf() ==> ids@ == succeeded_ids(views(self.queue@), self.outcomes@),
    {
        self.executed
    }
}

/// The ids of the tasks of a round's store stay those of the starting store.
proof fn lemma_round_store_ids(s: Seq<TaskView>, q: Seq<TaskView>, o: Seq<bool>, now: u64)
    ensures
        round_store(s, q, o, now).len() == s.len(),
        forall|i: int| 0 <= i < s.len() ==> (#[trigger] round_store(s, q, o, now)[i]).id == s[i].id,
        ids_unique(s) ==> ids_unique(round_store(s, q, o, now)),
{
    let r = round_store(s, q, o, now);
    assert forall|i: int| 0 <= i < s.len() implies (#[trigger] r[i]).id == s[i].id by {
        if has_run(q, o, s[i].id) {
            let k = index_of(q, s[i].id);
            assert(q[k].id == s[i].id);
        }
    }
    if ids_unique(s) {
        assert forall|i: int, j: int| 0 <= i < r.len() && 0 <= j < r.len() && i != j implies r[i].id != r[j].id by {
            assert(r[i].id == s[i].id && r[j].id == s[j].id);
        }
    }
}

/// Before any task has run, the round's store is the starting store.
proof fn lemma_round_store_empty(s: Seq<TaskView>, q: Seq<TaskView>, now: u64)
    ensures
        round_store(s, q, Seq::<bool>::empty(), now) == s,
{
    assert(round_store(s, q, Seq::<bool>::empty(), now) =~= s);
}

/// Running the next task of the queue, marked executing and then recorded
/// with its outcome, extends the round's store by that outcome.
#[verifier::rlimit(40)]
proof fn lemma_round_step(s: Seq<TaskView>, q: Seq<TaskView>, o: Seq<bool>, now: u64, b: bool)
    requires
        ids_unique(s),
        queue_from_store(s, q),
        o.len() < q.len(),
    ensures
        ids_unique(spec_set_task(round_store(s, q, o, now), executing(q[o.len() as int]))),
        spec_set_task(
            spec_set_task(round_store(s, q, o, now), executing(q[o.len() as int])),
            spec_after_execution(q[o.len() as int], b, now),
        ) == round_store(s, q, o.push(b), now),
{
    let n = o.len() as int;
    let id = q[n].id;
    let r = round_store(s, q, o, now);
    let r2 = round_store(s, q, o.push(b), now);
    lemma_round_store_ids(s, q, o, now);
    lemma_round_store_ids(s, q, o.push(b), now);
    assert(has_id(s, q[n].id));
    let j = index_of(s, id);
    assert(r[j].id == id);
    lemma_index_of(r, id, j);
    let mid = r.update(j, executing(q[n]));
    assert forall|a: int, c: int| 0 <= a < mid.len() && 0 <= c < mid.len() && a != c implies mid[a].id != mid[c].id by {
        assert(mid[a].id == r[a].id && mid[c].id == r[c].id);
    }
    assert(mid[j].id == id);
    lemma_index_of(mid, id, j);
    let after = spec_after_execution(q[n], b, now);
    lemma_index_of(q, id, n);
    assert forall|i: int| 0 <= i < s.len() implies #[trigger] mid.update(j, after)[i] == r2[i] by {
        if i == j {
            assert(s[i].id == id);
            assert(has_run(q, o.push(b), s[i].id));
            assert(o.push(b)[n] == b);
        } else {
            assert(s[i].id != id);
            if has_id(q, s[i].id) {
                let k = index_of(q, s[i].id);
                assert(q[k].id == s[i].id);
                assert(k != n);
                if k < n {
                    assert(o.push(b)[k] == o[k]);
                }
            }
        }
    }
    assert(mid.update(j, after) =~= r2);
}

/// The ready tasks of `part` are tasks of `part`, in the order they stand there.
proof fn lemma_ready_among_positions(s: Seq<TaskView>, part: Seq<TaskView>, now: u64) -> (m: Seq<int>)
    ensures
        m.len() == ready_among(s, part, now).len(),
        forall|k: int| 0 <= k < m.len() ==> 0 <= #[trigger] m[k] < part.len() && ready_among(s, part, now)[k] == part[m[k]],
        forall|k: int, l: int| 0 <= k < l < m.len() ==> #[trigger] m[k] < #[trigger] m[l],
    decreases part.len(),
{
    if part.len() == 0 {
        Seq::empty()
    } else {
        let front = part.drop_last();
        let m0 = lemma_ready_among_positions(s, front, now);
        assert forall|k: int| 0 <= k < m0.len() implies 0 <= #[trigger] m0[k] < part.len()
            && ready_among(s, front, now)[k] == part[m0[k]] by {
            assert(front[m0[k]] == part[m0[k]]);
        }
        if spec_is_ready(s, part.last(), now) {
            let m = m0.push(part.len() - 1);
            assert forall|k: int| 0 <= k < m.len() implies 0 <= #[trigger] m[k] < part.len()
                && ready_among(s, part, now)[k] == part[m[k]] by {
                if k < m0.len() {
                    assert(m[k] == m0[k]);
                }
            }
            assert forall|k: int, l: int| 0 <= k < l < m.len() implies #[trigger] m[k] < #[trigger] m[l] by {
                if l < m0.len() {
                    assert(m[k] == m0[k] && m[l] == m0[l]);
                } else {
                    assert(m[k] == m0[k]);
                }
            }
            m
        } else {
            m0
        }
    }
}

/// The ready tasks of a store, in any stable priority order, form a queue
/// taken from that store.
proof fn lemma_ready_queue_from_store(s: Seq<TaskView>, q: Seq<TaskView>, now: u64)
    requires
        ids_unique(s),
        is_stable_priority_sort(ready_in_store_order(s, now), q),
    ensures
        queue_from_store(s, q),
{
    let r = ready_in_store_order(s, now);
    let m = lemma_ready_among_positions(s, s, now);
    let p = choose|p: Seq<int>|
        {
            &&& is_permutation_map(p, r.len() as int)
            &&& forall|k: int| 0 <= k < q.len() ==> #[trigger] q[k] == r[p[k]]
            &&& forall|k: int, l: int| 0 <= k < l < q.len() && q[k].priority == q[l].priority ==> p[k] < p[l]
        };
    assert forall|k: int| 0 <= k < q.len() implies has_id(s, (#[trigger] q[k]).id) && s[index_of(s, q[k].id)] == q[k] by {
        let pk = p[k];
        assert(0 <= pk < r.len());
        assert(q[k] == r[pk]);
        let j = m[pk];
        assert(r[pk] == s[j]);
        lemma_index_of(s, q[k].id, j);
    }
    assert forall|a: int, b: int| 0 <= a < q.len() && 0 <= b < q.len() && a != b implies q[a].id != q[b].id by {
        assert(q[a] == r[p[a]] && q[b] == r[p[b]]);
        assert(p[a] != p[b]);
        let ja = m[p[a]];
        let jb = m[p[b]];
        if p[a] < p[b] {
            assert(ja < jb);
        } else {
            assert(jb < ja);
        }
        assert(r[p[a]] == s[ja] && r[p[b]] == s[jb]);
    }
}

/// A task of the queue that has run is recorded as its outcome leaves it.
proof fn lemma_round_store_ran(s: Seq<TaskView>, q: Seq<TaskView>, o: Seq<bool>, now: u64, k: int)
    requires
        ids_unique(q),
        has_id(s, q[k].id),
        s[index_of(s, q[k].id)] == q[k],
        0 <= k < o.len(),
        o.len() <= q.len(),
    ensures
        0 <= index_of(s, q[k].id) < s.len(),
        round_store(s, q, o, now)[index_of(s, q[k].id)] == spec_after_execution(q[k], o[k], now),
{
    lemma_index_of(q, q[k].id, k);
    let j = index_of(s, q[k].id);
    assert(s[j].id == q[k].id);
    assert(has_run(q, o, s[j].id));
}

/// A task that has not run is unchanged.
proof fn lemma_round_store_untouched(s: Seq<TaskView>, q: Seq<TaskView>, o: Seq<bool>, now: u64, i: int)
    requires
        0 <= i < s.len(),
        o.len() <= q.len(),
        forall|k: int| 0 <= k < o.len() ==> (#[trigger] q[k]).id != s[i].id,
    ensures
        round_store(s, q, o, now)[i] == s[i],
{
    if has_id(q, s[i].id) {
        let k = index_of(q, s[i].id);
        assert(q[k].id == s[i].id);
    }
}

/// What a round does to the store, stated over the tasks: between two calls,
/// every task that has run is recorded as its own outcome leaves it, every
/// other task is as it was when the round began, and the ids collected are
/// those of the tasks whose call succeeded, in the order they ran.
#[verifier::spinoff_prover]
#[verifier::rlimit(80)]
pub proof fn lemma_round_effect(round: &ExecutionRound, c: &SchedulerContract)
    requires
        round.tracks(c),
        !round.calling,
    ensures
        c.store().len() == round.start@.len(),
        forall|k: int|
            0 <= k < round.done ==> c.store()[index_of(round.start@, (#[trigger] views(round.queue@)[k]).id)]
                == spec_after_execution(views(round.queue@)[k], round.outcomes@[k], round.now),
        forall|i: int|
            0 <= i < round.start@.len() && (forall|k: int|
                0 <= k < round.done ==> (#[trigger] views(round.queue@)[k]).id != round.start@[i].id)
                ==> c.store()[i] == round.start@[i],
        round.executed@ == succeeded_ids(views(round.queue@), round.outcomes@),
{
    let s = round.start@;
    let q = views(round.queue@);
    let o = round.outcomes@;
    assert(c.store() == round_store(s, q, o, round.now));
    assert forall|k: int| 0 <= k < round.done implies c.store()[index_of(s, (#[trigger] q[k]).id)]
        == spec_after_execution(q[k], o[k], round.now) by {
        lemma_round_store_ran(s, q, o, round.now, k);
    }
    assert forall|i: int|
        0 <= i < s.len() && (forall|k: int| 0 <= k < round.done ==> (#[trigger] q[k]).id != s[i].id)
        implies c.store()[i] == s[i] by {
        lemma_round_store_untouched(s, q, o, round.now, i);
    }
}

/// The stored state of the scheduling engine.
pub struct SchedulerContract {
    pub initialized: bool,
    pub admin: Option<Address>,
    pub pending_admin: Option<Address>,
    pub is_paused: bool,
    /// Stored tasks, in the order their ids were first recorded.
    pub tasks: Vec<ScheduledTask>,
}

impl SchedulerContract {
    pub open spec fn store(&self) -> Seq<TaskView> {
        views(self.tasks@)
    }

    /// Stored ids are unique and an initialized engine has an admin.
    pub open spec fn wf(&self) -> bool {
        &&& ids_unique(self.store())
        &&& self.initialized ==> self.admin is Some
    }

    /// Returns the contract version.
    pub fn version() -> (v: u32)
        ensures
            v == 1,
    {
        1
    }

    /// An engine before initialization: nothing stored.
    pub fn new() -> (c: Self)
        ensures
            c.wf(),
            !c.initialized,
            c.admin is None,
            c.pending_admin is None,
            !c.is_paused,
            c.store().len() == 0,
    {
        let c = SchedulerContract { initialized: false, admin: None, pending_admin: None, is_paused: false, tasks: Vec::new() };
        assert(c.store() =~= Seq::<TaskView>::empty());
        c
    }

    fn find_task(&self, task_id: &Bytes32) -> (r: Option<usize>)
        requires
            self.wf(),
        ensures
            match r {
                Some(i) => i < self.store().len() && self.store()[i as int].id == *task_id
                    && has_id(self.store(), *task_id) && index_of(self.store(), *task_id) == i,
                None => !has_id(self.store(), *task_id),
            },
    {
        let mut i: usize = 0;
        while i < self.tasks.len()
            invariant
                0 <= i <= self.tasks@.len(),
                self.wf(),
                forall|k: int| 0 <= k < i ==> (#[trigger] self.store()[k]).id != *task_id,
            decreases self.tasks.len() - i,
        {
            if self.tasks[i].id == *task_id {
                proof {
                    lemma_index_of(self.store(), *task_id, i as int);
                }
                return Some(i);
            }
            i = i + 1;
        }
        proof {
            if has_id(self.store(), *task_id) {
                let k = choose|k: int| 0 <= k < self.store().len() && (#[trigger] self.store()[k]).id == *task_id;
            }
        }
        None
    }

    /// Write a task: it replaces the stored task with its id, or is appended.
    fn set_task(&mut self, task: ScheduledTask)
        requires
            old(self).wf(),
        ensures
            final(self).wf(),
            final(self).store() == spec_set_task(old(self).store(), task@),
            final(self).initialized == old(self).initialized,
            final(self).admin == old(self).admin,
            final(self).pending_admin == old(self).pending_admin,
            final(self).is_paused == old(self).is_paused,
    {
        let ghost v = task@;
        match self.find_task(&task.id) {
            Some(i) => {
                self.tasks.set(i, task);
                proof {
                    assert(self.store() =~= old(self).store().update(i as int, v));
                }
            },
            None => {
                self.tasks.push(task);
                proof {
                    assert(self.store() =~= old(self).store().push(v));
                }
            },
        }
    }

    /// Whether a task with this id is stored.
    pub fn has_task(&self, task_id: &Bytes32) -> (b: bool)
        requires
            self.wf(),
        ensures
            b == has_id(self.store(), *task_id),
    {
        self.find_task(task_id).is_some()
    }

    /// Remove a stored task, if any.
    pub fn delete_task(&mut self, task_id: &Bytes32)
        requires
            old(self).wf(),
        ensures
            final(self).wf(),
            has_id(old(self).store(), *task_id) ==> final(self).store() == old(self).store().remove(
                index_of(old(self).store(), *task_id),
            ),
            !has_id(old(self).store(), *task_id) ==> final(self).store() == old(self).store(),
            final(self).initialized == old(self).initialized,
            final(self).admin == old(self).admin,
            final(self).pending_admin == old(self).pending_admin,
            final(self).is_paused == old(self).is_paused,
    {
        match self.find_task(task_id) {
            Some(i) => {
                let _ = self.tasks.remove(i);
                proof {
                    assert(self.store() =~= old(self).store().remove(i as int));
                }
            },
            None => {},
        }
    }

    pub fn initialize(&mut self, admin: Address) -> (r: Result<(), SchedulerError>)
        requires
            old(self).wf(),
        ensures
            final(self).wf(),
            old(self).initialized ==> r == Err::<(), SchedulerError>(SchedulerError::AlreadyInitialized)
                && *final(self) == *old(self),
            !old(self).initialized ==> r is Ok && final(self).initialized && final(self).admin
                == Some(admin) && !final(self).is_paused && final(self).store().len() == 0
                && final(self).pending_admin == old(self).pending_admin,
    {
        if self.initialized {
            return Err(SchedulerError::AlreadyInitialized);
        }
        self.initialized = true;
        self.admin = Some(admin);
        self.is_paused = false;
        self.tasks = Vec::new();
        assert(self.store() =~= Seq::<TaskView>::empty());
        Ok(())
    }

    /// The checks every task write starts with.
    pub open spec fn spec_write_gate(&self) -> Result<(), SchedulerError> {
        if !self.initialized {
            Err(SchedulerError::NotInitialized)
        } else if self.is_paused {
            Err(SchedulerError::ContractPaused)
        } else {
            Ok(())
        }
    }

    fn write_gate(&self) -> (r: Result<(), SchedulerError>)
        requires
            self.wf(),
        ensures
            r == self.spec_write_gate(),
    {
        if !self.initialized {
            return Err(SchedulerError::NotInitialized);
        }
        if self.is_paused {
            return Err(SchedulerError::ContractPaused);
        }
        Ok(())
    }

    /// Schedules a new task (the admin's authorization is checked by the host).
    pub fn schedule_task(&mut self, task: ScheduledTask) -> (r: Result<(), SchedulerError>)
        requires
            old(self).wf(),
        ensures
            final(self).wf(),
            r == (if old(self).spec_write_gate() is Err {
                old(self).spec_write_gate()
            } else if spec_validate_task(task@) is Err {
                spec_validate_task(task@)
            } else if has_id(old(self).store(), task@.id) {
                Err(SchedulerError::TaskAlreadyExists)
            } else {
                Ok(())
            }),
            r is Ok ==> final(self).store() == old(self).store().push(task@),
            r is Err ==> final(self).store() == old(self).store(),
            final(self).initialized == old(self).initialized,
            final(self).admin == old(self).admin,
            final(self).pending_admin == old(self).pending_admin,
            final(self).is_paused == old(self).is_paused,
    {
        self.write_gate()?;
        validate_name_and_window(&task)?;
        if self.has_task(&task.id) {
            return Err(SchedulerError::TaskAlreadyExists);
        }
        self.set_task(task);
        Ok(())
    }

    /// Replaces a stored task (the admin's authorization is checked by the host).
    pub fn update_task(&mut self, task: ScheduledTask) -> (r: Result<(), SchedulerError>)
        requires
            old(self).wf(),
        ensures
            final(self).wf(),
            r == (if old(self).spec_write_gate() is Err {
                old(self).spec_write_gate()
            } else if spec_validate_task(task@) is Err {
                spec_validate_task(task@)
            } else if !has_id(old(self).store(), task@.id) {
                Err(SchedulerError::TaskNotFound)
            } else {
                Ok(())
            }),
            r is Ok ==> final(self).store() == old(self).store().update(
                index_of(old(self).store(), task@.id),
                task@,
            ),
            r is Err ==> final(self).store() == old(self).store(),
            final(self).initialized == old(self).initialized,
            final(self).admin == old(self).admin,
            final(self).pending_admin == old(self).pending_admin,
            final(self).is_paused == old(self).is_paused,
    {
        self.write_gate()?;
        validate_name_and_window(&task)?;
        if !self.has_task(&task.id) {
            return Err(SchedulerError::TaskNotFound);
        }
        self.set_task(task);
        Ok(())
    }

    /// Cancels a pending task (the admin's authorization is checked by the host).
    pub fn cancel_task(&mut self, task_id: Bytes32) -> (r: Result<(), SchedulerError>)
        requires
            old(self).wf(),
        ensures
            final(self).wf(),
            r == (if old(self).spec_write_gate() is Err {
                old(self).spec_write_gate()
            } else if !has_id(old(self).store(), task_id) {
                Err(SchedulerError::TaskNotFound)
            } else if old(self).store()[index_of(old(self).store(), task_id)].status
                != ScheduledTaskStatus::Pending {
                Err(SchedulerError::TaskNotPending)
            } else {
                Ok(())
            }),
            r is Ok ==> final(self).store() == old(self).store().update(
                index_of(old(self).store(), task_id),
                TaskView {
                    status: ScheduledTaskStatus::Canceled,
                    ..old(self).store()[index_of(old(self).store(), task_id)]
                },
            ),
            r is Err ==> final(self).store() == old(self).store(),
            final(self).initialized == old(self).initialized,
            final(self).admin == old(self).admin,
            final(self).pending_admin == old(self).pending_admin,
            final(self).is_paused == old(self).is_paused,
    {
        self.write_gate()?;
        let i = match self.find_task(&task_id) {
            Some(i) => i,
            None => {
                return Err(SchedulerError::TaskNotFound);
            },
        };
        if self.tasks[i].status != ScheduledTaskStatus::Pending {
            return Err(SchedulerError::TaskNotPending);
        }
        let mut task = self.tasks[i].copy();
        task.status = ScheduledTaskStatus::Canceled;
        let ghost v = task@;
        self.set_task(task);
        proof {
            assert(v =~= TaskView {
                status: ScheduledTaskStatus::Canceled,
                ..old(self).store()[index_of(old(self).store(), task_id)]
            });
        }
        Ok(())
    }

    /// Gets a task by ID.
    pub fn get_task(&self, task_id: Bytes32) -> (r: Result<ScheduledTask, SchedulerError>)
        requires
            self.wf(),
        ensures
            !self.initialized ==> (r matches Err(e) && e == SchedulerError::NotInitialized),
            self.initialized && !has_id(self.store(), task_id) ==> (r matches Err(e) && e
                == SchedulerError::TaskNotFound),
            self.initialized && has_id(self.store(), task_id) ==> (r matches Ok(t) && t@
                == self.store()[index_of(self.store(), task_id)]),
    {
        if !self.initialized {
            return Err(SchedulerError::NotInitialized);
        }
        match self.find_task(&task_id) {
            Some(i) => Ok(self.tasks[i].copy()),
            None => Err(SchedulerError::TaskNotFound),
        }
    }

    /// Lists all tasks in store order.
    pub fn list_tasks(&self) -> (r: Result<Vec<ScheduledTask>, SchedulerError>)
        requires
            self.wf(),
        ensures
            !self.initialized ==> (r matches Err(e) && e == SchedulerError::NotInitialized),
            self.initialized ==> (r matches Ok(v) && views(v@) == self.store()),
    {
        if !self.initialized {
            return Err(SchedulerError::NotInitialized);
        }
        let mut out: Vec<ScheduledTask> = Vec::new();
        let mut i: usize = 0;
        while i < self.tasks.len()
            invariant
                0 <= i <= self.tasks@.len(),
                out@.len() == i,
                forall|k: int| 0 <= k < i ==> (#[trigger] out@[k])@ == self.tasks@[k]@,
            decreases self.tasks.len() - i,
        {
            out.push(self.tasks[i].copy());
            i = i + 1;
        }
        assert(views(out@) =~= self.store());
        Ok(out)
    }

    /// Gets the current admin.
    pub fn admin(&self) -> (r: Result<Address, SchedulerError>)
        requires
            self.wf(),
        ensures
            !self.initialized ==> r == Err::<Address, SchedulerError>(SchedulerError::NotInitialized),
            self.initialized ==> r == Ok::<Address, SchedulerError>(self.admin->0),
    {
        if !self.initialized {
            return Err(SchedulerError::NotInitialized);
        }
        match self.admin {
            Some(a) => Ok(a),
            None => Err(SchedulerError::NotInitialized),
        }
    }

    /// Proposes a new admin (the current admin's authorization is checked by the host).
    pub fn propose_new_admin(&mut self, new_admin: Address) -> (r: Result<(), SchedulerError>)
        requires
            old(self).wf(),
        ensures
            final(self).wf(),
            !old(self).initialized ==> r == Err::<(), SchedulerError>(SchedulerError::NotInitialized)
                && *final(self) == *old(self),
            old(self).initialized ==> r is Ok && final(self).pending_admin == Some(new_admin)
                && final(self).admin == old(self).admin && final(self).tasks == old(self).tasks
                && final(self).is_paused == old(self).is_paused && final(self).initialized,
    {
        if !self.initialized {
            return Err(SchedulerError::NotInitialized);
        }
        self.pending_admin = Some(new_admin);
        Ok(())
    }

    /// Accepts the admin role (the new admin's authorization is checked by the host).
    pub fn accept_admin(&mut self, new_admin: Address) -> (r: Result<(), SchedulerError>)
        requires
            old(self).wf(),
        ensures
            final(self).wf(),
            r == (if !old(self).initialized {
                Err(SchedulerError::NotInitialized)
            } else if old(self).pending_admin is None {
                Err(SchedulerError::NoPendingAdmin)
            } else if old(self).pending_admin != Some(new_admin) {
                Err(SchedulerError::Unauthorized)
            } else {
                Ok(())
            }),
            r is Err ==> *final(self) == *old(self),
            r is Ok ==> final(self).admin == Some(new_admin) && final(self).pending_admin is None
                && final(self).tasks == old(self).tasks && final(self).is_paused == old(self).is_paused
                && final(self).initialized,
    {
        if !self.initialized {
            return Err(SchedulerError::NotInitialized);
        }
        match self.pending_admin {
            None => {
                return Err(SchedulerError::NoPendingAdmin);
            },
            Some(pending) => {
                if pending != new_admin {
                    return Err(SchedulerError::Unauthorized);
                }
            },
        }
        self.admin = Some(new_admin);
        self.pending_admin = None;
        Ok(())
    }

    /// Pauses or unpauses the scheduler (the admin's authorization is checked by the host).
    pub fn set_paused(&mut self, paused: bool) -> (r: Result<(), SchedulerError>)
        requires
            old(self).wf(),
        ensures
            final(self).wf(),
            !old(self).initialized ==> r == Err::<(), SchedulerError>(SchedulerError::NotInitialized)
                && *final(self) == *old(self),
            old(self).initialized ==> r is Ok && final(self).is_paused == paused
                && final(self).admin == old(self).admin && final(self).pending_admin == old(self).pending_admin
                && final(self).tasks == old(self).tasks && final(self).initialized,
    {
        if !self.initialized {
            return Err(SchedulerError::NotInitialized);
        }
        self.is_paused = paused;
        Ok(())
    }

    /// Pauses the scheduler.
    pub fn pause_contract(&mut self) -> (r: Result<(), SchedulerError>)
        requires
            old(self).wf(),
        ensures
            final(self).wf(),
            !old(self).initialized ==> r == Err::<(), SchedulerError>(SchedulerError::NotInitialized)
                && *final(self) == *old(self),
            old(self).initialized ==> r is Ok && final(self).is_paused
                && final(self).admin == old(self).admin && final(self).pending_admin == old(self).pending_admin
                && final(self).tasks == old(self).tasks && final(self).initialized,
    {
        self.set_paused(true)
    }

    /// Unpauses the scheduler.
    pub fn unpause_contract(&mut self) -> (r: Result<(), SchedulerError>)
        requires
            old(self).wf(),
        ensures
            final(self).wf(),
            !old(self).initialized ==> r == Err::<(), SchedulerError>(SchedulerError::NotInitialized)
                && *final(self) == *old(self),
            old(self).initialized ==> r is Ok && !final(self).is_paused
                && final(self).admin == old(self).admin && final(self).pending_admin == old(self).pending_admin
                && final(self).tasks == old(self).tasks && final(self).initialized,
    {
        self.set_paused(false)
    }

    /// Checks if the scheduler is paused.
    pub fn is_paused(&self) -> (b: bool)
        ensures
            b == self.is_paused,
    {
        self.is_paused
    }

    /// Whether a task may run at `now`, its dependencies looked up in the store.
    pub fn is_task_ready(&self, task: &ScheduledTask, current_time: u64) -> (b: bool)
        requires
            self.wf(),
        ensures
            b == spec_is_ready(self.store(), task@, current_time),
    {
        if task.status != ScheduledTaskStatus::Pending {
            return false;
        }
        if current_time < task.window.start_time || current_time > task.window.end_time {
            return false;
        }
        match task.window.max_recurrences {
            Some(max) => {
                if task.execution_count >= max {
                    return false;
                }
            },
            None => {},
        }
        let mut k: usize = 0;
        while k < task.dependencies.len()
            invariant
                0 <= k <= task.dependencies@.len(),
                self.wf(),
                forall|m: int|
                    0 <= m < k ==> has_id(self.store(), #[trigger] task.dependencies@[m])
                        && self.store()[index_of(self.store(), task.dependencies@[m])].status
                        == ScheduledTaskStatus::Success,
            decreases task.dependencies.len() - k,
        {
            let dep_id = task.dependencies[k];
            match self.find_task(&dep_id) {
                Some(i) => {
                    if self.tasks[i].status != ScheduledTaskStatus::Success {
                        return false;
                    }
                },
                None => {
                    return false;
                },
            }
            k = k + 1;
        }
        true
    }

    /// The tasks that may run at `current_time`, highest priority first (ties
    /// keep store order): the work of one execution round.
    pub fn ready_tasks(&self, current_time: u64) -> (r: Result<Vec<ScheduledTask>, SchedulerError>)
        requires
            self.wf(),
        ensures
            self.spec_write_gate() matches Err(e) ==> (r matches Err(e2) && e2 == e),
            self.spec_write_gate() is Ok ==> (r matches Ok(v) && is_stable_priority_sort(
                ready_in_store_order(self.store(), current_time),
                views(v@),
            )),
    {
        if !self.initialized {
            return Err(SchedulerError::NotInitialized);
        }
        if self.is_paused {
            return Err(SchedulerError::ContractPaused);
        }
        let mut ready: Vec<ScheduledTask> = Vec::new();
        let mut i: usize = 0;
        while i < self.tasks.len()
            invariant
                0 <= i <= self.tasks@.len(),
                self.wf(),
                views(ready@) == ready_among(self.store(), self.store().take(i as int), current_time),
            decreases self.tasks.len() - i,
        {
            let ready_now = self.is_task_ready(&self.tasks[i], current_time);
            proof {
                assert(self.store().take(i + 1).drop_last() =~= self.store().take(i as int));
                assert(self.store().take(i + 1).last() == self.store()[i as int]);
            }
            if ready_now {
                let ghost before = views(ready@);
                ready.push(self.tasks[i].copy());
                assert(views(ready@) =~= before.push(self.store()[i as int]));
            }
            i = i + 1;
        }
        assert(self.store().take(self.tasks@.len() as int) =~= self.store());
        Ok(sort_tasks_by_priority(ready))
    }

    /// Mark a task as executing, as it is handed to its target contract.
    pub fn begin_execution(&mut self, task: &mut ScheduledTask)
        requires
            old(self).wf(),
        ensures
            final(self).wf(),
            final(task)@ == (TaskView { status: ScheduledTaskStatus::Executing, ..old(task)@ }),
            final(self).store() == spec_set_task(old(self).store(), final(task)@),
            final(self).initialized == old(self).initialized,
            final(self).admin == old(self).admin,
            final(self).pending_admin == old(self).pending_admin,
            final(self).is_paused == old(self).is_paused,
    {
        task.status = ScheduledTaskStatus::Executing;
        let c = task.copy();
        self.set_task(c);
    }

    /// Record the outcome of a task's execution at `current_time`; returns
    /// whether the task counts as executed (its call succeeded).
    pub fn finish_execution(&mut self, task: ScheduledTask, success: bool, current_time: u64) -> (executed: bool)
        requires
            old(self).wf(),
            task.execution_count < u32::MAX,
        ensures
            final(self).wf(),
            executed == success,
            final(self).store() == spec_set_task(
                old(self).store(),
                spec_after_execution(task@, success, current_time),
            ),
            final(self).initialized == old(self).initialized,
            final(self).admin == old(self).admin,
            final(self).pending_admin == old(self).pending_admin,
            final(self).is_paused == old(self).is_paused,
    {
        let ghost orig = task@;
        let mut task = task;
        task.last_executed_at = Some(current_time);
        task.execution_count = task.execution_count + 1;
        if success {
            if should_recur(&task) {
                task.status = ScheduledTaskStatus::Pending;
            } else {
                task.status = ScheduledTaskStatus::Success;
            }
        } else {
            task.status = ScheduledTaskStatus::Failed;
        }
        let ghost v = task@;
        self.set_task(task);
        proof {
            assert(v =~= spec_after_execution(orig, success, current_time));
        }
        success
    }

    /// Begin the round of execution at `current_time`: the tasks ready then,
    /// highest priority first (ties keep store order), are queued to run one
    /// after the other; nothing has run yet.
    pub fn execute_ready_tasks(&self, current_time: u64) -> (r: Result<ExecutionRound, SchedulerError>)
        requires
            self.wf(),
        ensures
            self.spec_write_gate() matches Err(e) ==> (r matches Err(e2) && e2 == e),
            self.spec_write_gate() is Ok ==> (r matches Ok(round) && round.tracks(self) && round.now
                == current_time && round.start@ == self.store() && round.done == 0 && !round.calling
                && is_stable_priority_sort(ready_in_store_order(self.store(), current_time), views(round.queue@))),
    {
        let queue = self.ready_tasks(current_time)?;
        let round = ExecutionRound {
            now: current_time,
            queue,
            done: 0,
            calling: false,
            executed: Vec::new(),
            start: Ghost(self.store()),
            outcomes: Ghost(Seq::empty()),
        };
        proof {
            lemma_ready_queue_from_store(self.store(), views(round.queue@), current_time);
            lemma_round_store_empty(self.store(), views(round.queue@), current_time);
            assert(round.executed@ =~= succeeded_ids(views(round.queue@), Seq::<bool>::empty()));
        }
        Ok(round)
    }

    /// Hand out the next task of the round for its call, marked as executing
    /// in the store; `None`, with nothing changed, once every queued task has run.
    pub fn next_task(&mut self, round: &mut ExecutionRound) -> (t: Option<ScheduledTask>)
        requires
            old(round).tracks(old(self)),
            !old(round).calling,
        ensures
            final(round).tracks(final(self)),
            old(round).done < old(round).queue@.len() ==> (t matches Some(task) && task@ == executing(
                views(old(round).queue@)[old(round).done as int],
            ) && final(round).calling && final(self).store() == spec_set_task(old(self).store(), task@)),
            old(round).done >= old(round).queue@.len() ==> (t is None && !final(round).calling
                && final(self).store() == old(self).store()),
            final(round).now == old(round).now,
            final(round).queue@ == old(round).queue@,
            final(round).done == old(round).done,
            final(round).executed@ == old(round).executed@,
            final(round).start@ == old(round).start@,
            final(round).outcomes@ == old(round).outcomes@,
            final(self).initialized == old(self).initialized,
            final(self).admin == old(self).admin,
            final(self).pending_admin == old(self).pending_admin,
            final(self).is_paused == old(self).is_paused,
    {
        if round.done >= round.queue.len() {
            return None;
        }
        let mut task = round.queue[round.done].copy();
        self.begin_execution(&mut task);
        round.calling = true;
        Some(task)
    }

    /// Record how the call of the task under way ended: the task is stored as
    /// `spec_after_execution` leaves it, and its id joins the executed ones
    /// when the call succeeded.
    pub fn record_outcome(&mut self, round: &mut ExecutionRound, success: bool)
        requires
            old(round).tracks(old(self)),
            old(round).calling,
            old(round).queue@[old(round).done as int].execution_count < u32::MAX,
        ensures
            final(round).tracks(final(self)),
            !final(round).calling,
            final(round).done == old(round).done + 1,
            final(round).outcomes@ == old(round).outcomes@.push(success),
            final(round).executed@ == if success {
                old(round).executed@.push(old(round).queue@[old(round).done as int].id)
            } else {
                old(round).executed@
            },
            final(self).store() == spec_set_task(
                old(self).store(),
                spec_after_execution(views(old(round).queue@)[old(round).done as int], success, old(round).now),
            ),
            final(round).now == old(round).now,
            final(round).queue@ == old(round).queue@,
            final(round).start@ == old(round).start@,
            final(self).initialized == old(self).initialized,
            final(self).admin == old(self).admin,
            final(self).pending_admin == old(self).pending_admin,
            final(self).is_paused == old(self).is_paused,
    {
        let ghost q = views(round.queue@);
        let ghost o = round.outcomes@;
        let n = round.queue.len();
        assert(round.done < n);
        let task = round.queue[round.done].copy();
        let id = task.id;
        let _ = self.finish_execution(task, success, round.now);
        if success {
            round.executed.push(id);
        }
        round.outcomes = Ghost(round.outcomes@.push(success));
        round.done = round.done + 1;
        round.calling = false;
        proof {
            lemma_round_step(round.start@, q, o, round.now, success);
            assert(o.push(success).drop_last() =~= o);
        }
    }
}

/// A cancelled or failed task is never ready: only pending tasks run.
pub proof fn lemma_only_pending_tasks_run(s: Seq<TaskView>, t: TaskView, now: u64)
    requires
        t.status != ScheduledTaskStatus::Pending,
    ensures
        !spec_is_ready(s, t, now),
{
}

/// A task never runs outside its window nor beyond its allowed number of runs.
pub proof fn lemma_ready_within_window_and_budget(s: Seq<TaskView>, t: TaskView, now: u64)
    requires
        spec_is_ready(s, t, now),
    ensures
        t.window.start_time <= now <= t.window.end_time,
        t.window.max_recurrences matches Some(m) ==> t.execution_count < m,
{
}

/// A failed execution always leaves the task failed, whatever its recurrence;
/// a successful one leaves it pending only when it is recurring and has runs left.
pub proof fn lemma_execution_outcome(t: TaskView, success: bool, now: u64)
    requires
        t.execution_count < u32::MAX,
    ensures
        !success ==> spec_after_execution(t, success, now).status == ScheduledTaskStatus::Failed,
        success ==> (spec_after_execution(t, success, now).status == ScheduledTaskStatus::Pending
            <==> (t.window.recurrence_interval is Some && !(t.window.max_recurrences matches Some(m)
            && t.execution_count + 1 >= m))),
        spec_after_execution(t, success, now).execution_count == t.execution_count + 1,
        spec_after_execution(t, success, now).last_executed_at == Some(now),
        spec_after_execution(t, success, now).id == t.id,
{
}

/// A task is ready exactly when it is pending, the time lies within its
/// window (both ends included), it has runs left, and every task it depends
/// on is stored and has succeeded.
pub proof fn lemma_ready_exactly(s: Seq<TaskView>, t: TaskView, now: u64)
    ensures
        spec_is_ready(s, t, now) <==> {
            &&& t.status == ScheduledTaskStatus::Pending
            &&& t.window.start_time <= now
            &&& now <= t.window.end_time
            &&& (t.window.max_recurrences matches Some(m) ==> t.execution_count < m)
            &&& forall|k: int|
                0 <= k < t.dependencies.len() ==> has_id(s, #[trigger] t.dependencies[k]) && s[index_of(
                    s,
                    t.dependencies[k],
                )].status == ScheduledTaskStatus::Success
        },
{
}

/// A task runs again after a success exactly when it recurs and, counting
/// this run, has not reached its maximum number of runs.
pub proof fn lemma_recurrence_exactly(t: TaskView)
    ensures
        spec_should_recur(t) <==> (t.window.recurrence_interval is Some && (t.window.max_recurrences matches Some(m)
            ==> t.execution_count < m)),
{
}

/// A task is accepted exactly when its name has between 1 and 64 bytes and
/// its window starts before it ends; a bad name is reported before a bad window.
pub proof fn lemma_task_validation_exactly(t: TaskView)
    ensures
        spec_validate_task(t) is Ok <==> (1 <= t.name.len() <= 64 && t.window.start_time < t.window.end_time),
        (t.name.len() == 0 || t.name.len() > 64) ==> spec_validate_task(t) == Err::<(), SchedulerError>(
            SchedulerError::InvalidTaskName,
        ),
{
}

} // verus!
