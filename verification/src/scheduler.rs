//! Round-robin task scheduler.
//!
//! A FIFO ready queue of non-running tasks plus at most one current task.
//! A task reference lives in exactly one of the two places at a time. The
//! timer path calls [`timer_tick`], which invokes [`Scheduler::schedule`]
//! every tenth tick.

use vstd::prelude::*;
use std::collections::VecDeque;
use crate::physical::BitmapAllocator;
use crate::task::{Task, TaskId, TaskIdCounter, TaskState, STACK_FRAMES, STACK_SIZE};

verus! {

/// The task as it sits in the ready queue.
pub open spec fn demoted(t: Task) -> Task {
    (Task { state: TaskState::Ready, ..t })
}

/// The task as it runs in the current slot.
pub open spec fn promoted(t: Task) -> Task {
    (Task { state: TaskState::Running, ..t })
}

/// What remains of the current slot once a non-running occupant is retired:
/// only a still-running task goes back to the queue.
pub open spec fn kept_current(cur: Option<Task>) -> Option<Task> {
    match cur {
        Some(c) => if c.state == TaskState::Running {
            Some(c)
        } else {
            None
        },
        None => None,
    }
}

/// The ready queue after one scheduling decision over `(q, cur)`.
pub open spec fn schedule_queue(q: Seq<Task>, cur: Option<Task>) -> Seq<Task> {
    if q.len() == 0 {
        q
    } else {
        match kept_current(cur) {
            Some(c) => q.drop_first().push(demoted(c)),
            None => q.drop_first(),
        }
    }
}

/// The current slot after one scheduling decision over `(q, cur)`.
pub open spec fn schedule_current(q: Seq<Task>, cur: Option<Task>) -> Option<Task> {
    if q.len() == 0 {
        kept_current(cur)
    } else {
        Some(promoted(q[0]))
    }
}

/// The switch counter after one scheduling decision: it moves exactly when a
/// task is taken from the queue.
pub open spec fn schedule_switches(q: Seq<Task>, count: u64) -> int {
    if q.len() == 0 {
        count as int
    } else {
        count + 1
    }
}

/// The identifier in an optional current slot.
pub open spec fn current_id(cur: Option<Task>) -> Option<TaskId> {
    match cur {
        Some(t) => Some(t.id),
        None => None,
    }
}

/// Exclusivity of task references over the queue and the current slot: all
/// identifiers distinct, and the current task's identifier absent from the
/// queue.
pub open spec fn ids_exclusive(q: Seq<Task>, cur: Option<Task>) -> bool {
    &&& forall|i: int, j: int| 0 <= i < j < q.len() ==> q[i].id != q[j].id
    &&& cur matches Some(c) ==> forall|i: int| 0 <= i < q.len() ==> q[i].id != c.id
}

/// Round-robin task scheduler.
pub struct Scheduler {
    ready_queue: VecDeque<Task>,
    current_task: Option<Task>,
    switch_count: u64,
}

impl Scheduler {
    /// The ready queue, front first.
    pub closed spec fn queue(&self) -> Seq<Task> {
        self.ready_queue@
    }

    /// The task occupying the current slot, if any.
    pub closed spec fn current(&self) -> Option<Task> {
        self.current_task
    }

    /// Number of task switches performed so far.
    pub closed spec fn switches(&self) -> u64 {
        self.switch_count
    }

    /// Well-formedness: references exclusive, queued tasks ready, and the
    /// current task never `Ready`.
    pub open spec fn wf(&self) -> bool {
        &&& ids_exclusive(self.queue(), self.current())
        &&& forall|i: int| 0 <= i < self.queue().len() ==> self.queue()[i].state == TaskState::Ready
        &&& self.current() matches Some(c) ==> c.state != TaskState::Ready
    }

    /// An empty scheduler: nothing queued, nothing current, no switches yet.
    pub fn new() -> (r: Self)
        ensures
            r.wf(),
            r.queue() =~= Seq::<Task>::empty(),
            r.current() is None,
            r.switches() == 0,
    {
        Scheduler { ready_queue: VecDeque::new(), current_task: None, switch_count: 0 }
    }

    /// Mark a task ready and append it to the back of the ready queue.
    pub fn add_task(&mut self, task: Task)
        requires
            old(self).wf(),
            forall|i: int|
                0 <= i < old(self).queue().len() ==> old(self).queue()[i].id != task.id,
            old(self).current() matches Some(c) ==> c.id != task.id,
        ensures
            final(self).wf(),
            final(self).queue() =~= old(self).queue().push(demoted(task)),
            final(self).current() == old(self).current(),
            final(self).switches() == old(self).switches(),
    {
        let mut task = task;
        task.state = TaskState::Ready;
        self.ready_queue.push_back(task);
    }

    /// The currently running task, if any.
    pub fn current_task(&self) -> (r: Option<&Task>)
        ensures
            r is Some <==> self.current() is Some,
            r matches Some(t) ==> self.current() == Some(*t),
    {
        self.current_task.as_ref()
    }

    /// The identifier of the current task, if any.
    pub fn current_task_id(&self) -> (r: Option<TaskId>)
        ensures
            r == current_id(self.current()),
    {
        match self.current_task.as_ref() {
            Some(t) => Some(t.id),
            None => None,
        }
    }

    /// One round-robin scheduling decision.
    ///
    /// A current task that is no longer running (blocked or terminated) is
    /// retired from the slot. With an empty ready queue the current task, if
    /// any, simply continues and the switch counter stands still. Otherwise a
    /// still-running current task is demoted to ready at the back of the
    /// queue, the front task is promoted into the current slot, and the
    /// switch counter moves by one. Returns the identifier now current.
    pub fn schedule(&mut self) -> (r: Option<TaskId>)
        requires
            old(self).wf(),
            old(self).switches() < u64::MAX,
        ensures
            final(self).wf(),
            final(self).queue() =~= schedule_queue(old(self).queue(), old(self).current()),
            final(self).current() == schedule_current(old(self).queue(), old(self).current()),
            final(self).switches() == schedule_switches(
                old(self).queue(),
                old(self).switches(),
            ),
            r == current_id(final(self).current()),
    {
        // Retire a blocked or terminated occupant of the current slot.
        let retire = match self.current_task.as_ref() {
            Some(c) => !matches!(c.state, TaskState::Running),
            None => false,
        };
        if retire {
            self.current_task = None;
        }

        if self.ready_queue.len() == 0 {
            let r = self.current_task_id();
            return r;
        }

        // Demote the still-running current task to the back of the queue.
        let demote = self.current_task.take();
        match demote {
            Some(mut c) => {
                c.state = TaskState::Ready;
                self.ready_queue.push_back(c);
            },
            None => {},
        }

        // Promote the front of the queue.
        let next = self.ready_queue.pop_front();
        match next {
            Some(mut t) => {
                t.state = TaskState::Running;
                let id = t.id;
                self.current_task = Some(t);
                self.switch_count = self.switch_count + 1;
                Some(id)
            },
            None => {
                // Unreachable: the queue was non-empty above and only grew.
                proof {
                    assert(false);
                }
                None
            },
        }
    }

    /// Scheduler statistics: ready-queue length and switch count.
    pub fn stats(&self) -> (r: (usize, u64))
        ensures
            r.0 == self.queue().len(),
            r.1 == self.switches(),
    {
        (self.ready_queue.len(), self.switch_count)
    }

    /// Mark the current task blocked, in place; it will be retired from
    /// scheduling at the next decision.
    pub fn block_current_task(&mut self)
        requires
            old(self).wf(),
        ensures
            final(self).wf(),
            final(self).queue() =~= old(self).queue(),
            final(self).switches() == old(self).switches(),
            old(self).current() matches Some(c) ==> final(self).current() == Some(
                (Task { state: TaskState::Blocked, ..c }),
            ),
            old(self).current() is None ==> final(self).current() is None,
    {
        match self.current_task.as_mut() {
            Some(t) => {
                t.state = TaskState::Blocked;
            },
            None => {},
        }
    }

    /// Mark the current task terminated, in place; it will be retired from
    /// scheduling at the next decision.
    pub fn terminate_current_task(&mut self)
        requires
            old(self).wf(),
        ensures
            final(self).wf(),
            final(self).queue() =~= old(self).queue(),
            final(self).switches() == old(self).switches(),
            old(self).current() matches Some(c) ==> final(self).current() == Some(
                (Task { state: TaskState::Terminated, ..c }),
            ),
            old(self).current() is None ==> final(self).current() is None,
    {
        match self.current_task.as_mut() {
            Some(t) => {
                t.state = TaskState::Terminated;
            },
            None => {},
        }
    }
}

/// A task reference stays in exactly one place: a scheduling decision over an
/// exclusive pair leaves the pair exclusive. And with an empty ready queue a
/// decision leaves a running (or absent) current task and the switch counter
/// exactly as they were.
pub proof fn lemma_schedule_keeps_exclusivity(q: Seq<Task>, cur: Option<Task>, count: u64)
    requires
        ids_exclusive(q, cur),
    ensures
        ids_exclusive(schedule_queue(q, cur), schedule_current(q, cur)),
        q.len() == 0 && (cur matches Some(c) ==> c.state == TaskState::Running) ==> {
            &&& schedule_current(q, cur) == cur
            &&& schedule_queue(q, cur) == q
            &&& schedule_switches(q, count) == count
        },
{
    let q2 = schedule_queue(q, cur);
    let cur2 = schedule_current(q, cur);
    if q.len() > 0 {
        assert forall|i: int, j: int| 0 <= i < j < q2.len() implies q2[i].id != q2[j].id by {
            assert(q2[i].id == (if i < q.len() - 1 {
                q[i + 1].id
            } else {
                cur->Some_0.id
            }));
            assert(q2[j].id == (if j < q.len() - 1 {
                q[j + 1].id
            } else {
                cur->Some_0.id
            }));
        }
        assert forall|i: int| 0 <= i < q2.len() implies q2[i].id != cur2->Some_0.id by {
            assert(q2[i].id == (if i < q.len() - 1 {
                q[i + 1].id
            } else {
                cur->Some_0.id
            }));
        }
    }
}

/// With one ready task and no current task, a single decision promotes that
/// task into the current slot, empties the queue, and takes the switch
/// counter from zero to one.
pub proof fn lemma_first_schedule_promotes(q: Seq<Task>)
    requires
        q.len() == 1,
    ensures
        schedule_current(q, None) == Some(promoted(q[0])),
        schedule_queue(q, None) =~= Seq::<Task>::empty(),
        schedule_switches(q, 0) == 1,
{
}

/// The scheduler state after `k` consecutive decisions from `(q, cur)`:
/// the resulting ready queue and current slot.
pub open spec fn run_schedule(q: Seq<Task>, cur: Option<Task>, k: nat) -> (Seq<Task>, Option<
    Task,
>)
    decreases k,
{
    if k == 0 {
        (q, cur)
    } else {
        let prev = run_schedule(q, cur, (k - 1) as nat);
        (schedule_queue(prev.0, prev.1), schedule_current(prev.0, prev.1))
    }
}

/// Round-robin fairness: starting from tasks `q[0], ..., q[n-1]`, all ready,
/// and no current task, the `k`-th consecutive decision — for every `k`, not
/// just the first round — selects task `q[(k-1) % n]`: each task exactly once
/// per `n` consecutive decisions, in queue (FIFO insertion) order forever.
/// The queue meanwhile holds the other tasks in cyclic order after the
/// selected one.
pub proof fn lemma_round_robin_fairness(q: Seq<Task>, k: int)
    requires
        q.len() >= 1,
        1 <= k,
        forall|i: int| 0 <= i < q.len() ==> q[i].state == TaskState::Ready,
    ensures
        run_schedule(q, None, k as nat).1 == Some(promoted(q[(k - 1) % q.len() as int])),
        run_schedule(q, None, k as nat).0 =~= q.subrange(
            (k - 1) % q.len() as int + 1,
            q.len() as int,
        ).add(q.subrange(0, (k - 1) % q.len() as int)),
    decreases k,
{
    let n = q.len() as int;
    vstd::arithmetic::div_mod::lemma_mod_bound(k - 1, n);
    if k == 1 {
        assert((k - 1) % n == 0) by {
            vstd::arithmetic::div_mod::lemma_small_mod(0, n as nat);
        }
        assert(run_schedule(q, None, 1).0 =~= q.subrange(1, n).add(q.subrange(0, 0)));
    } else {
        lemma_round_robin_fairness(q, k - 1);
        vstd::arithmetic::div_mod::lemma_mod_bound(k - 2, n);
        let jp = (k - 2) % n;
        let j = (k - 1) % n;
        assert(j == (jp + 1) % n) by {
            vstd::arithmetic::div_mod::lemma_add_mod_noop(k - 2, 1, n);
            if n > 1 {
                vstd::arithmetic::div_mod::lemma_small_mod(1, n as nat);
            } else {
                vstd::arithmetic::div_mod::lemma_mod_self_0(n);
                vstd::arithmetic::div_mod::lemma_mod_twice(k - 2, n);
            }
        }
        assert(jp + 1 < n ==> j == jp + 1) by {
            if jp + 1 < n {
                vstd::arithmetic::div_mod::lemma_small_mod((jp + 1) as nat, n as nat);
            }
        }
        assert(jp + 1 == n ==> j == 0) by {
            if jp + 1 == n {
                vstd::arithmetic::div_mod::lemma_mod_self_0(n);
            }
        }
        let prev = run_schedule(q, None, (k - 1) as nat);
        let q1 = prev.0;
        let cur1 = prev.1;
        assert(cur1 == Some(promoted(q[jp])));
        assert(kept_current(cur1) == Some(promoted(q[jp])));
        // A ready task demoted after its run is itself again.
        assert(demoted(promoted(q[jp])) == q[jp]);
        if n == 1 {
            // A single task just keeps running; the queue stays empty.
            assert(q1.len() == 0);
            assert(run_schedule(q, None, k as nat).0 =~= q.subrange(1, n).add(
                q.subrange(0, 0),
            ));
        } else {
            assert(q1.len() == n - 1);
            if jp + 1 < n {
                assert(q1[0] == q.subrange(jp + 1, n)[0]);
                assert(q1[0] == q[j]);
            } else {
                assert(q1[0] == q.subrange(0, jp)[0]);
                assert(q1[0] == q[j]);
            }
            assert(run_schedule(q, None, k as nat).1 == Some(promoted(q[j])));
            assert(run_schedule(q, None, k as nat).0 =~= q.subrange(j + 1, n).add(
                q.subrange(0, j),
            ));
        }
    }
}

/// Every task identifier in the scheduler lies below `n` (the id counter's
/// next value); fresh identifiers then never collide with scheduled ones.
pub open spec fn ids_below(s: &Scheduler, n: u64) -> bool {
    &&& forall|i: int| 0 <= i < s.queue().len() ==> s.queue()[i].id.0 < n
    &&& s.current() matches Some(c) ==> c.id.0 < n
}

/// Create the two demonstration tasks at the given entry points and queue
/// them: a counter task and a letter task, each with its own fresh stack.
pub fn create_demo_tasks(
    sched: &mut Scheduler,
    task1_entry: u64,
    task2_entry: u64,
    ids: &mut TaskIdCounter,
    alloc: &mut BitmapAllocator,
)
    requires
        old(sched).wf(),
        ids_below(old(sched), old(ids).spec_next()),
        old(ids).spec_next() + 2 <= u64::MAX,
        old(alloc).wf(),
        old(alloc).free_count() >= 2 * STACK_FRAMES,
        old(alloc).total() * 4096 + STACK_SIZE <= u64::MAX,
    ensures
        final(sched).wf(),
        ids_below(final(sched), final(ids).spec_next()),
        final(ids).spec_next() == old(ids).spec_next() + 2,
        final(alloc).wf(),
        final(alloc).total() == old(alloc).total(),
        final(alloc).free_count() == old(alloc).free_count() - 2 * STACK_FRAMES,
        final(sched).current() == old(sched).current(),
        final(sched).switches() == old(sched).switches(),
        final(sched).queue().len() == old(sched).queue().len() + 2,
        final(sched).queue().take(old(sched).queue().len() as int) =~= old(sched).queue(),
        ({
            let t1 = final(sched).queue()[final(sched).queue().len() - 2];
            let t2 = final(sched).queue()[final(sched).queue().len() - 1];
            &&& t1.id.0 == old(ids).spec_next()
            &&& t1.name@ == "Counter Task"@
            &&& t1.state == TaskState::Ready
            &&& t1.registers.rip == task1_entry
            &&& t1.stack_size == STACK_SIZE
            &&& t2.id.0 == old(ids).spec_next() + 1
            &&& t2.name@ == "Letter Task"@
            &&& t2.state == TaskState::Ready
            &&& t2.registers.rip == task2_entry
            &&& t2.stack_size == STACK_SIZE
        }),
{
    let task1 = Task::new(task1_entry, String::from_str("Counter Task"), ids, alloc);
    sched.add_task(task1);
    let task2 = Task::new(task2_entry, String::from_str("Letter Task"), ids, alloc);
    sched.add_task(task2);
    proof {
        assert(final(sched).queue().take(old(sched).queue().len() as int) =~= old(
            sched,
        ).queue());
    }
}

/// Seed the task subsystem at boot: an empty scheduler takes the kernel task
/// (standing for the running context) and the two demonstration tasks, all
/// ready, in that order; nothing is current until the first decision.
pub fn init(
    task1_entry: u64,
    task2_entry: u64,
    ids: &mut TaskIdCounter,
    alloc: &mut BitmapAllocator,
) -> (r: Scheduler)
    requires
        old(ids).spec_next() + 3 <= u64::MAX,
        old(alloc).wf(),
        old(alloc).free_count() >= 2 * STACK_FRAMES,
        old(alloc).total() * 4096 + STACK_SIZE <= u64::MAX,
    ensures
        r.wf(),
        ids_below(&r, final(ids).spec_next()),
        final(ids).spec_next() == old(ids).spec_next() + 3,
        final(alloc).wf(),
        final(alloc).total() == old(alloc).total(),
        final(alloc).free_count() == old(alloc).free_count() - 2 * STACK_FRAMES,
        r.current() is None,
        r.switches() == 0,
        r.queue().len() == 3,
        r.queue()[0].id.0 == old(ids).spec_next(),
        r.queue()[0].name@ == "Kernel"@,
        r.queue()[0].state == TaskState::Ready,
        r.queue()[1].id.0 == old(ids).spec_next() + 1,
        r.queue()[1].name@ == "Counter Task"@,
        r.queue()[1].state == TaskState::Ready,
        r.queue()[1].registers.rip == task1_entry,
        r.queue()[2].id.0 == old(ids).spec_next() + 2,
        r.queue()[2].name@ == "Letter Task"@,
        r.queue()[2].state == TaskState::Ready,
        r.queue()[2].registers.rip == task2_entry,
{
    let mut sched = Scheduler::new();
    let kernel_task = Task::new_kernel_task(ids);
    sched.add_task(kernel_task);
    let ghost q1 = sched.queue();
    create_demo_tasks(&mut sched, task1_entry, task2_entry, ids, alloc);
    proof {
        assert(sched.queue().take(1) =~= q1);
        assert(sched.queue()[0] == sched.queue().take(1)[0]);
    }
    sched
}

/// Timer-driven preemption: count the tick, and every tenth tick make one
/// scheduling decision.
pub fn timer_tick(sched: &mut Scheduler, tick_count: &mut u64)
    requires
        old(sched).wf(),
        old(sched).switches() < u64::MAX,
        *old(tick_count) < u64::MAX,
    ensures
        *final(tick_count) == *old(tick_count) + 1,
        final(sched).wf(),
        (*old(tick_count) + 1) % 10 == 0 ==> {
            &&& final(sched).queue() =~= schedule_queue(old(sched).queue(), old(sched).current())
            &&& final(sched).current() == schedule_current(
                old(sched).queue(),
                old(sched).current(),
            )
            &&& final(sched).switches() == schedule_switches(
                old(sched).queue(),
                old(sched).switches(),
            )
        },
        (*old(tick_count) + 1) % 10 != 0 ==> *final(sched) == *old(sched),
{
    *tick_count = *tick_count + 1;
    if *tick_count % 10 == 0 {
        let _ = sched.schedule();
    }
}

} // verus!
