//! A bounded pool of tasks: which task may start, and what becomes of the
//! pool when one ends.
//!
//! The pool does no work itself. Its owner starts the task that the pool
//! names, waits where the pool says so, and reports each task that ends. The
//! pool never names a task while as many as its limit are in flight, and a
//! task that fails changes nothing for the others.

use vstd::prelude::*;

verus! {

/// Where a task stands.
#[derive(Clone, Copy, PartialEq, Eq, Structural, Debug)]
pub enum TaskState {
    /// Not started yet.
    Queued,
    /// Started, not ended.
    InFlight,
    /// Ended well.
    Succeeded,
    /// Ended in an error.
    Failed,
}

/// What the owner of a pool reports to it.
#[derive(Clone, Copy, PartialEq, Eq, Structural, Debug)]
pub enum PoolEvent {
    /// Nothing ended; the owner asks what to do.
    Poll,
    /// The task with this index ended.
    Finished { task: usize, success: bool },
}

/// What the pool asks of its owner.
#[derive(Clone, Copy, PartialEq, Eq, Structural, Debug)]
pub enum PoolAction {
    /// Start the task with this index, then ask again.
    Start(usize),
    /// Wait until a task in flight ends, and report it.
    Wait,
    /// Every task has ended.
    Done,
}

/// How many of `states` are `which`.
pub open spec fn count(states: Seq<TaskState>, which: TaskState) -> nat
    decreases states.len(),
{
    if states.len() == 0 {
        0
    } else {
        count(states.drop_last(), which) + if states.last() == which {
            1nat
        } else {
            0nat
        }
    }
}

/// A task that has ended, either way.
pub open spec fn is_terminal(state: TaskState) -> bool {
    state == TaskState::Succeeded || state == TaskState::Failed
}

/// The state that an ended task takes.
pub open spec fn ended(success: bool) -> TaskState {
    if success {
        TaskState::Succeeded
    } else {
        TaskState::Failed
    }
}

/// A pool as a mathematical value.
pub struct PoolView {
    /// The state of each task, by index.
    pub states: Seq<TaskState>,
    /// How many tasks have been started: tasks start in the order of their
    /// indices, so these are the tasks below this index.
    pub started: nat,
    /// How many tasks may be in flight at once.
    pub limit: nat,
}

impl PoolView {
    /// The pool before anything was started.
    pub open spec fn initial(total: nat, limit: nat) -> PoolView {
        PoolView { states: Seq::new(total, |i: int| TaskState::Queued), started: 0, limit }
    }

    /// What holds of every pool: the limit is at least one and is kept, the
    /// tasks below `started` have left the queue, the others wait in it.
    pub open spec fn wf(self) -> bool {
        &&& self.limit >= 1
        &&& self.started <= self.states.len()
        &&& self.in_flight() <= self.limit
        &&& forall|i: int| 0 <= i < self.started ==> self.states[i] != TaskState::Queued
        &&& forall|i: int|
            self.started <= i < self.states.len() ==> self.states[i] == TaskState::Queued
    }

    /// How many tasks are in flight.
    pub open spec fn in_flight(self) -> nat {
        count(self.states, TaskState::InFlight)
    }

    /// How many tasks ended well.
    pub open spec fn succeeded(self) -> nat {
        count(self.states, TaskState::Succeeded)
    }

    /// How many tasks ended in an error.
    pub open spec fn failed(self) -> nat {
        count(self.states, TaskState::Failed)
    }

    /// How many tasks ended, either way.
    pub open spec fn completed(self) -> nat {
        self.succeeded() + self.failed()
    }

    /// The pool after `event` was taken note of: a task in flight that is
    /// reported as ended takes its final state; any other report changes
    /// nothing.
    pub open spec fn settled(self, event: PoolEvent) -> PoolView {
        match event {
            PoolEvent::Finished { task, success } => if task < self.states.len()
                && self.states[task as int] == TaskState::InFlight {
                PoolView { states: self.states.update(task as int, ended(success)), ..self }
            } else {
                self
            },
            PoolEvent::Poll => self,
        }
    }

    /// A task can start: one waits in the queue and a slot is free.
    pub open spec fn can_start(self) -> bool {
        self.started < self.states.len() && self.in_flight() < self.limit
    }

    /// What the pool asks for.
    pub open spec fn decision(self) -> PoolAction {
        if self.can_start() {
            PoolAction::Start(self.started as usize)
        } else if self.in_flight() > 0 {
            PoolAction::Wait
        } else {
            PoolAction::Done
        }
    }

    /// The pool after it asked for `decision()`: where that is a start, the
    /// task is in flight.
    pub open spec fn decided(self) -> PoolView {
        if self.can_start() {
            PoolView {
                states: self.states.update(self.started as int, TaskState::InFlight),
                started: self.started + 1,
                ..self
            }
        } else {
            self
        }
    }

    /// One step: take note of `event`, then decide.
    pub open spec fn step(self, event: PoolEvent) -> (PoolView, PoolAction) {
        (self.settled(event).decided(), self.settled(event).decision())
    }

    /// The pool after a run of events.
    pub open spec fn run(self, events: Seq<PoolEvent>) -> PoolView
        decreases events.len(),
    {
        if events.len() == 0 {
            self
        } else {
            self.run(events.drop_last()).step(events.last()).0
        }
    }
}

/// A pool of tasks with a limit on how many are in flight.
pub struct Pool {
    states: Vec<TaskState>,
    started: usize,
    limit: usize,
    in_flight: usize,
    succeeded: usize,
    failed: usize,
}

impl View for Pool {
    type V = PoolView;

    closed spec fn view(&self) -> PoolView {
        PoolView { states: self.states@, started: self.started as nat, limit: self.limit as nat }
    }
}

/// The number of downloads that may be in flight at once.
pub const MAX_CONCURRENT_DOWNLOADS: usize = 3;

/// Changing the state of one task changes each count by that task alone: the
/// count of its old state loses one, the count of its new state gains one.
pub proof fn lemma_count_update(states: Seq<TaskState>, i: int, new: TaskState, which: TaskState)
    requires
        0 <= i < states.len(),
    ensures
        count(states.update(i, new), which) + (if states[i] == which {
            1nat
        } else {
            0nat
        }) == count(states, which) + (if new == which {
            1nat
        } else {
            0nat
        }),
    decreases states.len(),
{
    let updated = states.update(i, new);
    if i == states.len() - 1 {
        assert(updated.drop_last() == states.drop_last());
    } else {
        assert(updated.drop_last() == states.drop_last().update(i, new));
        lemma_count_update(states.drop_last(), i, new, which);
    }
}

/// Every task is in exactly one state: the four counts add up to the number
/// of tasks.
pub proof fn lemma_count_bounds(states: Seq<TaskState>)
    ensures
        count(states, TaskState::Queued) + count(states, TaskState::InFlight) + count(
            states,
            TaskState::Succeeded,
        ) + count(states, TaskState::Failed) == states.len(),
    decreases states.len(),
{
    if states.len() > 0 {
        lemma_count_bounds(states.drop_last());
    }
}

/// A count is zero exactly when no task is in that state.
pub proof fn lemma_count_none(states: Seq<TaskState>, which: TaskState)
    ensures
        count(states, which) == 0 <==> forall|i: int| 0 <= i < states.len() ==> states[i] != which,
    decreases states.len(),
{
    if states.len() > 0 {
        let front = states.drop_last();
        lemma_count_none(front, which);
        if count(states, which) == 0 {
            assert forall|i: int| 0 <= i < states.len() implies states[i] != which by {
                if i < front.len() {
                    assert(front[i] == states[i]);
                }
            }
        }
        if forall|i: int| 0 <= i < states.len() ==> states[i] != which {
            assert forall|i: int| 0 <= i < front.len() implies front[i] != which by {
                assert(front[i] == states[i]);
            }
            assert(states.last() == states[states.len() - 1]);
        }
    }
}

/// Before anything was started, every task waits in the queue.
pub proof fn lemma_count_initial(total: nat, which: TaskState)
    ensures
        count(Seq::new(total, |i: int| TaskState::Queued), which) == if which
            == TaskState::Queued {
            total
        } else {
            0
        },
    decreases total,
{
    let all = Seq::new(total, |i: int| TaskState::Queued);
    if total > 0 {
        assert(all.drop_last() == Seq::new((total - 1) as nat, |i: int| TaskState::Queued));
        lemma_count_initial((total - 1) as nat, which);
    }
}

impl Pool {
    /// What holds of every pool that this module hands out.
    pub closed spec fn wf(&self) -> bool {
        &&& self@.wf()
        &&& self.in_flight == self@.in_flight()
        &&& self.succeeded == self@.succeeded()
        &&& self.failed == self@.failed()
    }

    /// The view of a pool that this module hands out keeps its limit, so
    /// what is proved of such views holds of the pool.
    pub proof fn lemma_view_is_wf(&self)
        requires
            self.wf(),
        ensures
            self@.wf(),
    {
    }

    fn with_limit(total: usize, limit: usize) -> (pool: Pool)
        requires
            limit >= 1,
        ensures
            pool.wf(),
            pool@ == PoolView::initial(total as nat, limit as nat),
    {
        let mut states: Vec<TaskState> = Vec::new();
        while states.len() < total
            invariant
                states.len() <= total,
                forall|i: int| 0 <= i < states.len() ==> states[i] == TaskState::Queued,
            decreases total - states.len(),
        {
            states.push(TaskState::Queued);
        }
        proof {
            assert(states@ == Seq::new(total as nat, |i: int| TaskState::Queued));
            lemma_count_initial(total as nat, TaskState::InFlight);
            lemma_count_initial(total as nat, TaskState::Succeeded);
            lemma_count_initial(total as nat, TaskState::Failed);
        }
        Pool { states, started: 0, limit, in_flight: 0, succeeded: 0, failed: 0 }
    }

    /// A pool of `total` downloads, of which at most three are in flight at once.
    pub fn for_downloads(total: usize) -> (pool: Pool)
        ensures
            pool.wf(),
            pool@ == PoolView::initial(total as nat, MAX_CONCURRENT_DOWNLOADS as nat),
    {
        Pool::with_limit(total, MAX_CONCURRENT_DOWNLOADS)
    }

    /// A pool of `total` tasks that run strictly one after the other.
    pub fn sequential(total: usize) -> (pool: Pool)
        ensures
            pool.wf(),
            pool@ == PoolView::initial(total as nat, 1),
    {
        Pool::with_limit(total, 1)
    }

    /// Takes note of `event` and says what to do next.
    pub fn step(&mut self, event: PoolEvent) -> (action: PoolAction)
        requires
            old(self).wf(),
        ensures
            final(self).wf(),
            (final(self)@, action) == old(self)@.step(event),
    {
        proof {
            lemma_count_bounds(self.states@);
        }
        match event {
            PoolEvent::Finished { task, success } => {
                if task < self.states.len() && self.states[task] == TaskState::InFlight {
                    proof {
                        let new = ended(success);
                        lemma_count_update(self.states@, task as int, new, TaskState::InFlight);
                        lemma_count_update(self.states@, task as int, new, TaskState::Succeeded);
                        lemma_count_update(self.states@, task as int, new, TaskState::Failed);
                        lemma_count_bounds(self.states@.update(task as int, new));
                    }
                    if success {
                        self.states.set(task, TaskState::Succeeded);
                        self.succeeded = self.succeeded + 1;
                    } else {
                        self.states.set(task, TaskState::Failed);
                        self.failed = self.failed + 1;
                    }
                    self.in_flight = self.in_flight - 1;
                }
            },
            PoolEvent::Poll => {},
        }
        assert(self@ == old(self)@.settled(event));
        assert(self.wf());
        if self.started < self.states.len() && self.in_flight < self.limit {
            let task = self.started;
            proof {
                lemma_count_update(self.states@, task as int, TaskState::InFlight, TaskState::InFlight);
                lemma_count_update(self.states@, task as int, TaskState::InFlight, TaskState::Succeeded);
                lemma_count_update(self.states@, task as int, TaskState::InFlight, TaskState::Failed);
            }
            self.states.set(task, TaskState::InFlight);
            self.started = self.started + 1;
            self.in_flight = self.in_flight + 1;
            PoolAction::Start(task)
        } else if self.in_flight > 0 {
            PoolAction::Wait
        } else {
            PoolAction::Done
        }
    }

    /// How many tasks the pool holds.
    pub fn total(&self) -> (n: usize)
        ensures
            n == self@.states.len(),
    {
        self.states.len()
    }

    /// How many tasks may be in flight at once.
    pub fn limit(&self) -> (n: usize)
        ensures
            n == self@.limit,
    {
        self.limit
    }

    /// How many tasks are in flight.
    pub fn in_flight(&self) -> (n: usize)
        requires
            self.wf(),
        ensures
            n == self@.in_flight(),
            n <= self@.limit,
    {
        self.in_flight
    }

    /// How many tasks ended well.
    pub fn succeeded(&self) -> (n: usize)
        requires
            self.wf(),
        ensures
            n == self@.succeeded(),
    {
        self.succeeded
    }

    /// How many tasks ended in an error.
    pub fn failed(&self) -> (n: usize)
        requires
            self.wf(),
        ensures
            n == self@.failed(),
    {
        self.failed
    }

    /// How many tasks ended, either way.
    pub fn completed(&self) -> (n: usize)
        requires
            self.wf(),
        ensures
            n == self@.completed(),
    {
        let total = self.states.len();
        proof {
            lemma_count_bounds(self.states@);
        }
        assert(self.succeeded + self.failed <= total);
        self.succeeded + self.failed
    }

    /// The state of the task with index `task`, if the pool holds such a task.
    pub fn state(&self, task: usize) -> (state: Option<TaskState>)
        ensures
            state == if task < self@.states.len() {
                Some(self@.states[task as int])
            } else {
                None
            },
    {
        if task < self.states.len() {
            Some(self.states[task])
        } else {
            None
        }
    }

    /// Whether every task has ended.
    pub fn is_done(&self) -> (done: bool)
        requires
            self.wf(),
        ensures
            done == (self@.completed() == self@.states.len()),
    {
        let total = self.states.len();
        proof {
            lemma_count_bounds(self.states@);
        }
        assert(self.succeeded + self.failed <= total);
        self.succeeded + self.failed == total
    }
}

proof fn lemma_settled_keeps_wf(pool: PoolView, event: PoolEvent)
    requires
        pool.wf(),
    ensures
        pool.settled(event).wf(),
        pool.settled(event).started == pool.started,
        pool.settled(event).limit == pool.limit,
        pool.settled(event).states.len() == pool.states.len(),
        pool.settled(event).in_flight() <= pool.in_flight(),
        pool.settled(event).succeeded() >= pool.succeeded(),
        pool.settled(event).failed() >= pool.failed(),
{
    if let PoolEvent::Finished { task, success } = event {
        if task < pool.states.len() && pool.states[task as int] == TaskState::InFlight {
            lemma_count_update(pool.states, task as int, ended(success), TaskState::InFlight);
            lemma_count_update(pool.states, task as int, ended(success), TaskState::Succeeded);
            lemma_count_update(pool.states, task as int, ended(success), TaskState::Failed);
        }
    }
}

proof fn lemma_decided_keeps_wf(pool: PoolView)
    requires
        pool.wf(),
    ensures
        pool.decided().wf(),
        pool.decided().limit == pool.limit,
        pool.decided().states.len() == pool.states.len(),
        pool.decided().started >= pool.started,
        pool.decided().succeeded() == pool.succeeded(),
        pool.decided().failed() == pool.failed(),
{
    if pool.can_start() {
        let at = pool.started as int;
        lemma_count_update(pool.states, at, TaskState::InFlight, TaskState::InFlight);
        lemma_count_update(pool.states, at, TaskState::InFlight, TaskState::Succeeded);
        lemma_count_update(pool.states, at, TaskState::InFlight, TaskState::Failed);
    }
}

/// A step leads from a pool that keeps its limit to one that keeps it: the
/// limit itself and the number of tasks do not change.
pub proof fn lemma_step_keeps_wf(pool: PoolView, event: PoolEvent)
    requires
        pool.wf(),
    ensures
        pool.step(event).0.wf(),
        pool.step(event).0.limit == pool.limit,
        pool.step(event).0.states.len() == pool.states.len(),
{
    lemma_settled_keeps_wf(pool, event);
    lemma_decided_keeps_wf(pool.settled(event));
}

/// Whatever is reported to a pool, in whatever order, and however many tasks
/// it holds: never more tasks are in flight than its limit allows.
pub proof fn lemma_limit_is_kept(total: nat, limit: nat, events: Seq<PoolEvent>)
    requires
        limit >= 1,
    ensures
        PoolView::initial(total, limit).run(events).wf(),
        PoolView::initial(total, limit).run(events).limit == limit,
        PoolView::initial(total, limit).run(events).states.len() == total,
        PoolView::initial(total, limit).run(events).in_flight() <= limit,
    decreases events.len(),
{
    let start = PoolView::initial(total, limit);
    if events.len() == 0 {
        lemma_count_initial(total, TaskState::InFlight);
    } else {
        lemma_limit_is_kept(total, limit, events.drop_last());
        lemma_step_keeps_wf(start.run(events.drop_last()), events.last());
    }
}

/// At most three downloads are in flight at any time, for any number of
/// downloads and any course of events.
pub proof fn lemma_at_most_three_downloads(total: nat, events: Seq<PoolEvent>)
    ensures
        PoolView::initial(total, MAX_CONCURRENT_DOWNLOADS as nat).run(events).in_flight() <= 3,
{
    lemma_limit_is_kept(total, MAX_CONCURRENT_DOWNLOADS as nat, events);
}

/// The end of one task, well or in an error, leaves every other task as it
/// was, but for the one task that may start in the slot that became free:
/// a task that has ended keeps its outcome, a task in flight stays in flight,
/// and when it later ends well it counts as succeeded.
pub proof fn lemma_failure_is_isolated(pool: PoolView, task: usize, success: bool, other: usize)
    requires
        pool.wf(),
        other != task,
        other < pool.states.len(),
    ensures
        ({
            let next = pool.step(PoolEvent::Finished { task, success }).0;
            &&& pool.states[other as int] != TaskState::Queued ==> next.states[other as int]
                == pool.states[other as int]
            &&& pool.states[other as int] == TaskState::Queued ==> next.states[other as int]
                == TaskState::Queued || next.states[other as int] == TaskState::InFlight
            &&& pool.states[other as int] == TaskState::InFlight ==> next.step(
                PoolEvent::Finished { task: other, success: true },
            ).0.states[other as int] == TaskState::Succeeded
        }),
{
    let event = PoolEvent::Finished { task, success };
    lemma_settled_keeps_wf(pool, event);
    let settled = pool.settled(event);
    assert(settled.states[other as int] == pool.states[other as int]);
    let next = settled.decided();
    lemma_decided_keeps_wf(settled);
    if pool.states[other as int] == TaskState::InFlight {
        assert(next.states[other as int] == TaskState::InFlight);
        let later = PoolEvent::Finished { task: other, success: true };
        lemma_settled_keeps_wf(next, later);
        let closed = next.settled(later);
        assert(closed.states[other as int] == TaskState::Succeeded);
        lemma_decided_keeps_wf(closed);
    }
}

/// When a task in flight ends while others wait in the queue, the next of
/// them is started at once, whether the task ended well or not.
pub proof fn lemma_free_slot_is_filled(pool: PoolView, task: usize, success: bool)
    requires
        pool.wf(),
        task < pool.states.len(),
        pool.states[task as int] == TaskState::InFlight,
        pool.started < pool.states.len(),
        pool.states.len() <= usize::MAX,
    ensures
        pool.step(PoolEvent::Finished { task, success }).1 == PoolAction::Start(
            pool.started as usize,
        ),
{
    lemma_count_update(pool.states, task as int, ended(success), TaskState::InFlight);
}

/// The counts of ended tasks never go down, and a step adds one to them
/// exactly when it is told of the end of a task that was in flight.
pub proof fn lemma_progress_is_monotone(pool: PoolView, event: PoolEvent)
    requires
        pool.wf(),
    ensures
        ({
            let next = pool.step(event).0;
            let ends_one = event matches PoolEvent::Finished { task, .. } && task
                < pool.states.len() && pool.states[task as int] == TaskState::InFlight;
            &&& next.succeeded() >= pool.succeeded()
            &&& next.failed() >= pool.failed()
            &&& next.started >= pool.started
            &&& next.completed() == pool.completed() + if ends_one {
                1nat
            } else {
                0nat
            }
            &&& next.completed() <= next.states.len()
        }),
{
    lemma_settled_keeps_wf(pool, event);
    lemma_decided_keeps_wf(pool.settled(event));
    lemma_count_bounds(pool.step(event).0.states);
    if let PoolEvent::Finished { task, success } = event {
        if task < pool.states.len() && pool.states[task as int] == TaskState::InFlight {
            lemma_count_update(pool.states, task as int, ended(success), TaskState::Succeeded);
            lemma_count_update(pool.states, task as int, ended(success), TaskState::Failed);
        }
    }
}

/// The pool says that it is done exactly when every task has ended: then the
/// count of ended tasks has reached the number of tasks.
pub proof fn lemma_done_means_all_ended(pool: PoolView, event: PoolEvent)
    requires
        pool.wf(),
    ensures
        ({
            let (next, action) = pool.step(event);
            action == PoolAction::Done <==> next.completed() == next.states.len()
        }),
        ({
            let (next, action) = pool.step(event);
            action == PoolAction::Done ==> forall|i: int|
                0 <= i < next.states.len() ==> is_terminal(#[trigger] next.states[i])
        }),
{
    lemma_settled_keeps_wf(pool, event);
    let settled = pool.settled(event);
    lemma_decided_keeps_wf(settled);
    let next = settled.decided();
    lemma_count_bounds(next.states);
    lemma_count_none(next.states, TaskState::Queued);
    lemma_count_none(next.states, TaskState::InFlight);
    if settled.can_start() {
        lemma_count_update(
            settled.states,
            settled.started as int,
            TaskState::InFlight,
            TaskState::InFlight,
        );
    } else if settled.in_flight() == 0 {
        assert(settled.started == settled.states.len());
        assert forall|i: int| 0 <= i < next.states.len() implies is_terminal(
            #[trigger] next.states[i],
        ) by {
            assert(next.states[i] != TaskState::Queued);
            assert(next.states[i] != TaskState::InFlight);
        }
    } else {
        if settled.started < settled.states.len() {
            assert(next.states[settled.started as int] == TaskState::Queued);
        }
    }
}

/// In a pool with a limit of one, a task starts only when every task before
/// it has ended: the tasks run strictly one after the other, in order.
pub proof fn lemma_sequential_order(pool: PoolView, event: PoolEvent)
    requires
        pool.wf(),
        pool.limit == 1,
    ensures
        ({
            let (next, action) = pool.step(event);
            action matches PoolAction::Start(task) ==> forall|earlier: int|
                0 <= earlier < task ==> is_terminal(#[trigger] next.states[earlier])
        }),
{
    lemma_settled_keeps_wf(pool, event);
    let settled = pool.settled(event);
    if settled.can_start() {
        lemma_count_none(settled.states, TaskState::InFlight);
        let next = settled.decided();
        assert forall|earlier: int| 0 <= earlier < settled.started implies is_terminal(
            #[trigger] next.states[earlier],
        ) by {
            assert(next.states[earlier] == settled.states[earlier]);
            assert(settled.states[earlier] != TaskState::Queued);
            assert(settled.states[earlier] != TaskState::InFlight);
        }
    }
}

} // verus!
