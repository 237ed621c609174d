//! The mathematical model of the task manager: its state as plain values,
//! and the transitions the scheduler makes on it.
use vstd::prelude::*;
use super::MAX_APP_NUM;
use super::task::{TaskControlBlock, TaskStatus};
use vstd::arithmetic::div_mod::{lemma_small_mod, lemma_fundamental_div_mod_converse_mod};

verus! {

/// What the kernel must do after the scheduler has decided.
#[derive(Clone, Copy, PartialEq, Eq, Debug, Structural)]
pub enum SwitchAction {
    /// Save the context of slot `from` and resume the context of slot `to`.
    Switch { from: usize, to: usize },
    /// No task is left to run: power the machine off.
    Shutdown,
}

/// The task manager as a value: how many applications there are, which slot
/// runs, and the slot table.
pub struct TaskManagerModel {
    pub num: usize,
    pub current: usize,
    pub tcbs: Seq<TaskControlBlock>,
}

/// The slot `k` places after `cur` in cyclic order over `num` slots.
pub open spec fn cyclic_slot(cur: nat, k: nat, num: nat) -> nat {
    (cur + k) % num
}

/// Within one lap, the cyclic slot is the plain sum, wrapped once.
pub proof fn lemma_cyclic_slot(cur: nat, k: nat, num: nat)
    requires
        cur < num,
        k <= num,
    ensures
        cyclic_slot(cur, k, num) == (if cur + k < num { cur + k } else { (cur + k - num) as nat }),
{
    if cur + k < num {
        lemma_small_mod(cur + k, num);
    } else {
        lemma_fundamental_div_mod_converse_mod((cur + k) as int, num as int, 1, cur + k - num);
    }
}

impl TaskManagerModel {
    /// Well-formedness: a full slot table, a number of applications that fits
    /// it, and a current slot that is one of them (slot 0 when there is none).
    pub open spec fn wf(self) -> bool {
        &&& self.tcbs.len() == MAX_APP_NUM
        &&& self.num <= MAX_APP_NUM
        &&& self.current < MAX_APP_NUM
        &&& (self.num > 0 ==> self.current < self.num)
        &&& (self.num == 0 ==> self.current == 0)
    }

    /// Status of slot `i`.
    pub open spec fn status(self, i: int) -> TaskStatus {
        self.tcbs[i].task_status
    }

    /// Whether slot `i` holds a task that is ready to run.
    pub open spec fn is_ready(self, i: int) -> bool {
        self.status(i) == TaskStatus::Ready
    }

    /// The slot `k` places after the current one.
    pub open spec fn slot_after(self, k: nat) -> nat {
        cyclic_slot(self.current as nat, k, self.num as nat)
    }

    /// The first ready slot among those `k`, `k + 1`, ..., `num` places after
    /// the current one: a full lap, so the current slot comes last.
    pub open spec fn first_ready_from(self, k: nat) -> Option<usize>
        decreases self.num + 1 - k,
    {
        if k == 0 || k > self.num {
            None
        } else if self.is_ready(self.slot_after(k) as int) {
            Some(self.slot_after(k) as usize)
        } else {
            self.first_ready_from(k + 1)
        }
    }

    /// The slot the round-robin scheduler picks next.
    pub open spec fn next_ready(self) -> Option<usize> {
        self.first_ready_from(1)
    }

    /// The model with slot `id` given status `st`, its context unchanged.
    pub open spec fn with_status(self, id: int, st: TaskStatus) -> TaskManagerModel {
        TaskManagerModel {
            num: self.num,
            current: self.current,
            tcbs: self.tcbs.update(
                id,
                TaskControlBlock { task_status: st, task_cx: self.tcbs[id].task_cx },
            ),
        }
    }

    /// The model with slot `id` made current.
    pub open spec fn with_current(self, id: usize) -> TaskManagerModel {
        TaskManagerModel { num: self.num, current: id, tcbs: self.tcbs }
    }

    /// Switching away from the current slot: run the slot the scheduler
    /// picks, or shut down when it picks none.
    pub open spec fn run_next(self) -> (TaskManagerModel, SwitchAction) {
        match self.next_ready() {
            Some(t) => (
                self.with_current(t).with_status(t as int, TaskStatus::Running),
                SwitchAction::Switch { from: self.current, to: t },
            ),
            None => (self, SwitchAction::Shutdown),
        }
    }

    /// The current task yields: it becomes ready, and the next one runs.
    pub open spec fn suspend_and_run_next(self) -> (TaskManagerModel, SwitchAction) {
        self.with_status(self.current as int, TaskStatus::Ready).run_next()
    }

    /// The current task exits: it becomes exited, and the next one runs.
    pub open spec fn exit_and_run_next(self) -> (TaskManagerModel, SwitchAction) {
        self.with_status(self.current as int, TaskStatus::Exited).run_next()
    }

    /// The first task starts: slot 0 becomes current and running.
    pub open spec fn start(self) -> TaskManagerModel {
        self.with_current(0).with_status(0, TaskStatus::Running)
    }

    /// Every running slot is the current one.
    pub open spec fn running_is_current(self) -> bool {
        forall|i: int| 0 <= i < MAX_APP_NUM && #[trigger] self.status(i) == TaskStatus::Running
            ==> i == self.current
    }

    /// The search from `k` on finds the first ready slot at or after `k`
    /// places, and finds none only when every slot it passes is not ready.
    proof fn lemma_first_ready_from(self, k: nat)
        requires
            self.wf(),
            self.num > 0,
            1 <= k,
        ensures
            match self.first_ready_from(k) {
                Some(t) => exists|j: nat|
                    k <= j <= self.num && t == self.slot_after(j) && self.is_ready(t as int)
                        && forall|i: nat|
                        k <= i < j ==> !self.is_ready(#[trigger] self.slot_after(i) as int),
                None => forall|i: nat|
                    k <= i <= self.num ==> !self.is_ready(#[trigger] self.slot_after(i) as int),
            },
        decreases self.num + 1 - k,
    {
        if k > self.num {
        } else if self.is_ready(self.slot_after(k) as int) {
            assert(self.slot_after(k) as usize == self.slot_after(k)) by {
                lemma_cyclic_slot(self.current as nat, k, self.num as nat);
            }
        } else {
            self.lemma_first_ready_from(k + 1);
        }
    }

    /// How many places after the current slot slot `i` comes, in one lap.
    pub open spec fn offset_of(self, i: nat) -> nat {
        if i > self.current {
            (i - self.current) as nat
        } else {
            (i + self.num - self.current) as nat
        }
    }

    /// Every application's slot is met exactly once in a lap from the current
    /// slot, and the current slot is met last.
    pub proof fn lemma_offset_of(self, i: nat)
        requires
            self.wf(),
            self.num > 0,
            i < self.num,
        ensures
            1 <= self.offset_of(i) <= self.num,
            self.slot_after(self.offset_of(i)) == i,
            (i == self.current) == (self.offset_of(i) == self.num),
    {
        lemma_cyclic_slot(self.current as nat, self.offset_of(i), self.num as nat);
    }

    /// In a lap, only the last place is the current slot.
    pub proof fn lemma_slot_after_in_lap(self, k: nat)
        requires
            self.wf(),
            self.num > 0,
            1 <= k <= self.num,
        ensures
            self.slot_after(k) < self.num,
            (self.slot_after(k) == self.current) == (k == self.num),
    {
        lemma_cyclic_slot(self.current as nat, k, self.num as nat);
    }
}

/// Round-robin choice: the scheduler picks the first ready slot after the
/// current one in cyclic order, looking at the current slot last. The slot
/// it picks is a ready application; it picks the current slot only when no
/// other application is ready; and it picks none exactly when no
/// application is ready.
pub proof fn lemma_next_ready_round_robin(m: TaskManagerModel)
    requires
        m.wf(),
        m.num > 0,
    ensures
        match m.next_ready() {
            Some(t) => {
                &&& t < m.num
                &&& m.is_ready(t as int)
                &&& (t == m.current ==> forall|i: int|
                    0 <= i < m.num && i != m.current ==> !#[trigger] m.is_ready(i))
                &&& exists|k: nat|
                    1 <= k <= m.num && t == m.slot_after(k) && forall|j: nat|
                        1 <= j < k ==> !m.is_ready(#[trigger] m.slot_after(j) as int)
            },
            None => forall|i: int| 0 <= i < m.num ==> !#[trigger] m.is_ready(i),
        },
{
    m.lemma_first_ready_from(1);
    match m.next_ready() {
        Some(t) => {
            let k = choose|k: nat|
                1 <= k <= m.num && t == m.slot_after(k) && forall|j: nat|
                    1 <= j < k ==> !m.is_ready(#[trigger] m.slot_after(j) as int);
            m.lemma_slot_after_in_lap(k);
            if t == m.current {
                assert forall|i: int| 0 <= i < m.num && i != m.current implies !#[trigger] m.is_ready(
                    i,
                ) by {
                    m.lemma_offset_of(i as nat);
                    assert(!m.is_ready(m.slot_after(m.offset_of(i as nat)) as int));
                }
            }
        },
        None => {
            assert forall|i: int| 0 <= i < m.num implies !#[trigger] m.is_ready(i) by {
                m.lemma_offset_of(i as nat);
                assert(!m.is_ready(m.slot_after(m.offset_of(i as nat)) as int));
            }
        },
    }
}


/// The scheduler's transitions keep the model well-formed: yielding and
/// exiting (with at least one application), and starting the first task.
pub proof fn lemma_transitions_preserve_wf(m: TaskManagerModel)
    requires
        m.wf(),
    ensures
        m.num > 0 ==> m.suspend_and_run_next().0.wf(),
        m.num > 0 ==> m.exit_and_run_next().0.wf(),
        m.start().wf(),
{
    if m.num > 0 {
        lemma_next_ready_round_robin(m.with_status(m.current as int, TaskStatus::Ready));
        lemma_next_ready_round_robin(m.with_status(m.current as int, TaskStatus::Exited));
    }
}

/// At most one task runs, and it is the current one: yielding and exiting
/// keep this so. After a switch the picked task is the only one running;
/// after a shutdown none is.
pub proof fn lemma_single_running_task(m: TaskManagerModel)
    requires
        m.wf(),
        m.num > 0,
        m.running_is_current(),
    ensures
        m.suspend_and_run_next().0.running_is_current(),
        m.exit_and_run_next().0.running_is_current(),
        m.suspend_and_run_next().1 == SwitchAction::Shutdown ==> forall|i: int|
            0 <= i < MAX_APP_NUM ==> #[trigger] m.suspend_and_run_next().0.status(i)
                != TaskStatus::Running,
        m.exit_and_run_next().1 == SwitchAction::Shutdown ==> forall|i: int|
            0 <= i < MAX_APP_NUM ==> #[trigger] m.exit_and_run_next().0.status(i)
                != TaskStatus::Running,
{
    let ms = m.with_status(m.current as int, TaskStatus::Ready);
    let me = m.with_status(m.current as int, TaskStatus::Exited);
    lemma_next_ready_round_robin(ms);
    lemma_next_ready_round_robin(me);
    assert forall|i: int| 0 <= i < MAX_APP_NUM implies #[trigger] ms.status(i)
        != TaskStatus::Running by {
        if i != m.current {
            assert(m.status(i) != TaskStatus::Running);
        }
    }
    assert forall|i: int| 0 <= i < MAX_APP_NUM implies #[trigger] me.status(i)
        != TaskStatus::Running by {
        if i != m.current {
            assert(m.status(i) != TaskStatus::Running);
        }
    }
    let (s2, _) = m.suspend_and_run_next();
    let (e2, _) = m.exit_and_run_next();
    assert forall|i: int| 0 <= i < MAX_APP_NUM && #[trigger] s2.status(i) == TaskStatus::Running
        implies i == s2.current by {
        assert(ms.status(i) != TaskStatus::Running);
    }
    assert forall|i: int| 0 <= i < MAX_APP_NUM && #[trigger] e2.status(i) == TaskStatus::Running
        implies i == e2.current by {
        assert(me.status(i) != TaskStatus::Running);
    }
}

/// Starting the first task on a table where no task runs leaves slot 0 as
/// the only running task, and current.
pub proof fn lemma_start_single_running_task(m: TaskManagerModel)
    requires
        m.wf(),
        forall|i: int| 0 <= i < MAX_APP_NUM ==> #[trigger] m.status(i) != TaskStatus::Running,
    ensures
        m.start().running_is_current(),
        m.start().current == 0,
        m.start().status(0) == TaskStatus::Running,
{
    let s = m.start();
    assert forall|i: int| 0 <= i < MAX_APP_NUM && #[trigger] s.status(i) == TaskStatus::Running
        implies i == s.current by {
        if i != 0 {
            assert(m.status(i) != TaskStatus::Running);
        }
    }
}

/// An exited task never runs again: yielding leaves every other exited
/// task exited, and exiting leaves the exiting task, and every exited task,
/// exited.
pub proof fn lemma_exited_tasks_stay_exited(m: TaskManagerModel)
    requires
        m.wf(),
        m.num > 0,
    ensures
        forall|i: int|
            0 <= i < MAX_APP_NUM && i != m.current && m.status(i) == TaskStatus::Exited
                ==> #[trigger] m.suspend_and_run_next().0.status(i) == TaskStatus::Exited,
        forall|i: int|
            0 <= i < MAX_APP_NUM && (i == m.current || m.status(i) == TaskStatus::Exited)
                ==> #[trigger] m.exit_and_run_next().0.status(i) == TaskStatus::Exited,
{
    let ms = m.with_status(m.current as int, TaskStatus::Ready);
    let me = m.with_status(m.current as int, TaskStatus::Exited);
    lemma_next_ready_round_robin(ms);
    lemma_next_ready_round_robin(me);
}


/// Yielding never shuts the machine down: the yielding task is ready again,
/// so some task is left to run. When no other application is ready, the
/// yielding task itself runs on.
pub proof fn lemma_yield_never_shuts_down(m: TaskManagerModel)
    requires
        m.wf(),
        m.num > 0,
    ensures
        m.suspend_and_run_next().1 != SwitchAction::Shutdown,
        (forall|i: int| 0 <= i < m.num && i != m.current ==> !#[trigger] m.is_ready(i))
            ==> m.suspend_and_run_next().1 == (SwitchAction::Switch { from: m.current, to: m.current }),
{
    let ms = m.with_status(m.current as int, TaskStatus::Ready);
    lemma_next_ready_round_robin(ms);
    assert(ms.is_ready(m.current as int));
    if forall|i: int| 0 <= i < m.num && i != m.current ==> !#[trigger] m.is_ready(i) {
        if let Some(t) = ms.next_ready() {
            if t != m.current {
                assert(ms.is_ready(t as int));
                assert(m.is_ready(t as int));
            }
        }
    }
}

/// Exiting shuts the machine down exactly when no other application is
/// ready, that is, when no task is left to run.
pub proof fn lemma_exit_shuts_down_when_none_left(m: TaskManagerModel)
    requires
        m.wf(),
        m.num > 0,
    ensures
        (m.exit_and_run_next().1 == SwitchAction::Shutdown) <==> (forall|i: int|
            0 <= i < m.num && i != m.current ==> !#[trigger] m.is_ready(i)),
{
    let me = m.with_status(m.current as int, TaskStatus::Exited);
    lemma_next_ready_round_robin(me);
    if forall|i: int| 0 <= i < m.num && i != m.current ==> !#[trigger] m.is_ready(i) {
        assert forall|i: int| 0 <= i < me.num implies !#[trigger] me.is_ready(i) by {
            if i != m.current {
                assert(!m.is_ready(i));
            }
        }
    } else {
        let i = choose|i: int| 0 <= i < m.num && i != m.current && #[trigger] m.is_ready(i);
        assert(me.is_ready(i));
    }
}

/// What the running task asks of the scheduler.
#[derive(Clone, Copy, PartialEq, Eq, Debug, Structural)]
pub enum SchedEvent {
    /// The running task yields.
    Yield,
    /// The running task exits.
    Exit,
}

impl TaskManagerModel {
    /// The scheduler's response to one event.
    pub open spec fn step(self, e: SchedEvent) -> (TaskManagerModel, SwitchAction) {
        match e {
            SchedEvent::Yield => self.suspend_and_run_next(),
            SchedEvent::Exit => self.exit_and_run_next(),
        }
    }

    /// A run: the scheduler's responses to `events` in turn, until it shuts
    /// the machine down; the final model and the actions taken.
    pub open spec fn run(self, events: Seq<SchedEvent>) -> (TaskManagerModel, Seq<SwitchAction>)
        decreases events.len(),
    {
        if events.len() == 0 {
            (self, Seq::empty())
        } else {
            let (next, a) = self.step(events[0]);
            if a == SwitchAction::Shutdown {
                (next, seq![a])
            } else {
                let (last, acts) = next.run(events.drop_first());
                (last, seq![a] + acts)
            }
        }
    }
}

/// Whether `a` resumes slot `i`.
pub open spec fn resumes(a: SwitchAction, i: int) -> bool {
    a matches SwitchAction::Switch { to, .. } && to == i
}

/// Over any run, an exited task stays exited and is never resumed, provided
/// the running task is not itself an exited one.
pub proof fn lemma_exited_task_never_resumed(m: TaskManagerModel, events: Seq<SchedEvent>, i: int)
    requires
        m.wf(),
        m.num > 0,
        m.status(m.current as int) != TaskStatus::Exited,
        0 <= i < MAX_APP_NUM,
        m.status(i) == TaskStatus::Exited,
    ensures
        m.run(events).0.status(i) == TaskStatus::Exited,
        forall|j: int| 0 <= j < m.run(events).1.len() ==> !resumes(#[trigger] m.run(events).1[j], i),
    decreases events.len(),
{
    if events.len() > 0 {
        let e = events[0];
        let mid = match e {
            SchedEvent::Yield => m.with_status(m.current as int, TaskStatus::Ready),
            SchedEvent::Exit => m.with_status(m.current as int, TaskStatus::Exited),
        };
        lemma_next_ready_round_robin(mid);
        lemma_exited_tasks_stay_exited(m);
        lemma_transitions_preserve_wf(m);
        assert(mid.status(i) == TaskStatus::Exited);
        let (next, a) = m.step(e);
        assert(!resumes(a, i));
        if a != SwitchAction::Shutdown {
            lemma_exited_task_never_resumed(next, events.drop_first(), i);
            let (last, acts) = next.run(events.drop_first());
            assert forall|j: int| 0 <= j < m.run(events).1.len() implies !resumes(
                #[trigger] m.run(events).1[j],
                i,
            ) by {
                if j > 0 {
                    assert(m.run(events).1[j] == acts[j - 1]);
                }
            }
        } else {
            assert(m.run(events).1 =~= seq![a]);
        }
    }
}

/// A task that exits is never resumed: the exit does not switch back to it,
/// and over any run that follows, it stays exited and no switch resumes it.
pub proof fn lemma_exit_is_final(m: TaskManagerModel, events: Seq<SchedEvent>)
    requires
        m.wf(),
        m.num > 0,
        m.status(m.current as int) == TaskStatus::Running,
    ensures
        !resumes(m.exit_and_run_next().1, m.current as int),
        m.exit_and_run_next().0.status(m.current as int) == TaskStatus::Exited,
        m.exit_and_run_next().1 != SwitchAction::Shutdown ==> {
            let (last, acts) = m.exit_and_run_next().0.run(events);
            &&& last.status(m.current as int) == TaskStatus::Exited
            &&& forall|j: int| 0 <= j < acts.len() ==> !resumes(#[trigger] acts[j], m.current as int)
        },
{
    let me = m.with_status(m.current as int, TaskStatus::Exited);
    lemma_next_ready_round_robin(me);
    lemma_exited_tasks_stay_exited(m);
    lemma_transitions_preserve_wf(m);
    let (next, a) = m.exit_and_run_next();
    if a != SwitchAction::Shutdown {
        lemma_exited_task_never_resumed(next, events, m.current as int);
    }
}

/// How many steps forward, in cyclic order over `num` slots, slot `to` lies
/// after slot `from`: between 1 and `num`, `num` when they are the same slot.
pub open spec fn cyclic_distance(from: int, to: int, num: int) -> int {
    if to > from { to - from } else { to + num - from }
}

/// A yield, over all inputs: the yielding slot's registers are saved (the
/// switch is from the slot that was current), and the slot resumed is the
/// first one after it in cyclic order that was ready, the yielding slot
/// itself coming last; it becomes current and running, the yielding slot
/// becomes ready, and nothing else changes: no other slot, and no context.
pub proof fn lemma_yield_switches_in_cyclic_order(m: TaskManagerModel)
    requires
        m.wf(),
        m.num > 0,
    ensures
        m.suspend_and_run_next().0.num == m.num,
        m.suspend_and_run_next().0.tcbs.len() == m.tcbs.len(),
        m.suspend_and_run_next().1 matches SwitchAction::Switch { from, to } && {
            &&& from == m.current
            &&& m.suspend_and_run_next().0.current == to
            &&& to < m.num
            &&& m.suspend_and_run_next().0.status(to as int) == TaskStatus::Running
            &&& (to != m.current ==> m.is_ready(to as int) && m.suspend_and_run_next().0.status(
                m.current as int,
            ) == TaskStatus::Ready)
            &&& (to == m.current ==> forall|i: int|
                0 <= i < m.num && i != m.current ==> !#[trigger] m.is_ready(i))
            &&& forall|j: int|
                1 <= j < cyclic_distance(m.current as int, to as int, m.num as int) ==> !#[trigger] m.is_ready(
                    (m.current + j) % (m.num as int),
                )
        },
        forall|i: int|
            0 <= i < MAX_APP_NUM ==> #[trigger] m.suspend_and_run_next().0.tcbs[i].task_cx
                == m.tcbs[i].task_cx,
        forall|i: int|
            0 <= i < MAX_APP_NUM && i != m.current && i != m.suspend_and_run_next().0.current
                ==> #[trigger] m.suspend_and_run_next().0.tcbs[i] == m.tcbs[i],
{
    let ms = m.with_status(m.current as int, TaskStatus::Ready);
    lemma_next_ready_round_robin(ms);
    lemma_yield_never_shuts_down(m);
    let t = ms.next_ready().unwrap();
    let k = choose|k: nat|
        1 <= k <= ms.num && t == ms.slot_after(k) && forall|j: nat|
            1 <= j < k ==> !ms.is_ready(#[trigger] ms.slot_after(j) as int);
    lemma_cyclic_slot(m.current as nat, k, m.num as nat);
    assert(k == cyclic_distance(m.current as int, t as int, m.num as int));
    assert forall|j: int| 1 <= j < k implies !#[trigger] m.is_ready(
        (m.current + j) % (m.num as int),
    ) by {
        ms.lemma_slot_after_in_lap(j as nat);
        assert(!ms.is_ready(ms.slot_after(j as nat) as int));
    }
    if t == m.current {
        assert forall|i: int| 0 <= i < m.num && i != m.current implies !#[trigger] m.is_ready(
            i,
        ) by {
            assert(!ms.is_ready(i));
        }
    }
}

/// An exit, over all inputs: the exiting slot becomes exited. If another
/// application is ready, the exiting slot's registers are saved (the switch
/// is from the slot that was current) and the slot resumed is the first ready
/// one after it in cyclic order; it becomes current and running. Otherwise
/// the machine shuts down. Nothing else changes: no other slot, and no
/// context.
pub proof fn lemma_exit_switches_in_cyclic_order(m: TaskManagerModel)
    requires
        m.wf(),
        m.num > 0,
    ensures
        m.exit_and_run_next().0.num == m.num,
        m.exit_and_run_next().0.tcbs.len() == m.tcbs.len(),
        m.exit_and_run_next().0.status(m.current as int) == TaskStatus::Exited,
        m.exit_and_run_next().1 matches SwitchAction::Switch { from, to } ==> {
            &&& from == m.current
            &&& m.exit_and_run_next().0.current == to
            &&& to < m.num
            &&& to != m.current
            &&& m.is_ready(to as int)
            &&& m.exit_and_run_next().0.status(to as int) == TaskStatus::Running
            &&& forall|j: int|
                1 <= j < cyclic_distance(m.current as int, to as int, m.num as int) ==> !#[trigger] m.is_ready(
                    (m.current + j) % (m.num as int),
                )
        },
        m.exit_and_run_next().1 == SwitchAction::Shutdown ==> {
            &&& m.exit_and_run_next().0.current == m.current
            &&& forall|i: int| 0 <= i < m.num && i != m.current ==> !#[trigger] m.is_ready(i)
        },
        forall|i: int|
            0 <= i < MAX_APP_NUM ==> #[trigger] m.exit_and_run_next().0.tcbs[i].task_cx
                == m.tcbs[i].task_cx,
        forall|i: int|
            0 <= i < MAX_APP_NUM && i != m.current && i != m.exit_and_run_next().0.current
                ==> #[trigger] m.exit_and_run_next().0.tcbs[i] == m.tcbs[i],
{
    let me = m.with_status(m.current as int, TaskStatus::Exited);
    lemma_next_ready_round_robin(me);
    lemma_exit_shuts_down_when_none_left(m);
    if let Some(t) = me.next_ready() {
        let k = choose|k: nat|
            1 <= k <= me.num && t == me.slot_after(k) && forall|j: nat|
                1 <= j < k ==> !me.is_ready(#[trigger] me.slot_after(j) as int);
        me.lemma_slot_after_in_lap(k);
        lemma_cyclic_slot(m.current as nat, k, m.num as nat);
        assert(k == cyclic_distance(m.current as int, t as int, m.num as int));
        assert forall|j: int| 1 <= j < k implies !#[trigger] m.is_ready(
            (m.current + j) % (m.num as int),
        ) by {
            me.lemma_slot_after_in_lap(j as nat);
            assert(!me.is_ready(me.slot_after(j as nat) as int));
        }
    }
}

/// Starting the first task makes slot 0 current and running and changes
/// nothing else: every slot keeps its context, every other slot its status.
pub proof fn lemma_start_keeps_contexts(m: TaskManagerModel)
    requires
        m.wf(),
    ensures
        m.start().num == m.num,
        m.start().current == 0,
        m.start().tcbs.len() == m.tcbs.len(),
        m.start().status(0) == TaskStatus::Running,
        forall|i: int| 0 <= i < MAX_APP_NUM ==> #[trigger] m.start().tcbs[i].task_cx == m.tcbs[i].task_cx,
        forall|i: int| 1 <= i < MAX_APP_NUM ==> #[trigger] m.start().tcbs[i] == m.tcbs[i],
{
}

} // verus!
