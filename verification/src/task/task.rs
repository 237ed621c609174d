//! Task control blocks and the task manager.
use vstd::prelude::*;
use super::MAX_APP_NUM;
use super::model::{SwitchAction, TaskManagerModel, lemma_next_ready_round_robin, lemma_cyclic_slot};

verus! {

/// Life-cycle state of a task slot.
#[derive(Clone, Copy, PartialEq, Eq, Debug, Structural)]
pub enum TaskStatus {
    UnInit,
    Ready,
    Running,
    Exited,
}

/// Callee-saved registers of a task, as the context switch saves them:
/// return address, stack pointer and `s0`..`s11`.
#[derive(Clone, Copy, Debug)]
pub struct TaskContext {
    ra: usize,
    sp: usize,
    s: [usize; 12],
}

impl View for TaskContext {
    type V = (usize, usize, Seq<usize>);

    closed spec fn view(&self) -> (usize, usize, Seq<usize>) {
        (self.ra, self.sp, self.s@)
    }
}

impl TaskContext {
    /// A context that resumes at `ra` on stack `sp` with saved registers `s`.
    pub fn new(ra: usize, sp: usize, s: [usize; 12]) -> (r: Self)
        ensures
            r@ == (ra, sp, s@),
    {
        Self { ra: ra, sp: sp, s: s }
    }

    /// The saved return address.
    pub fn ra(&self) -> (r: usize)
        ensures
            r == self@.0,
    {
        self.ra
    }

    /// The saved stack pointer.
    pub fn sp(&self) -> (r: usize)
        ensures
            r == self@.1,
    {
        self.sp
    }

    /// The saved registers `s0`..`s11`.
    pub fn saved(&self) -> (r: [usize; 12])
        ensures
            r@ == self@.2,
    {
        self.s
    }
}

/// The zero context: every saved register is 0.
pub open spec fn zero_context_view() -> (usize, usize, Seq<usize>) {
    (0, 0, Seq::new(12, |i: int| 0usize))
}

/// One task slot: its status and its saved context.
#[derive(Clone, Copy, Debug)]
pub struct TaskControlBlock {
    pub task_status: TaskStatus,
    pub task_cx: TaskContext,
}

impl TaskControlBlock {
    /// A slot that holds no task yet.
    pub fn uninit() -> (r: Self)
        ensures
            r.task_status == TaskStatus::UnInit,
            r.task_cx@ == zero_context_view(),
    {
        let r = Self { task_status: TaskStatus::UnInit, task_cx: TaskContext::new(0, 0, [0; 12]) };
        assert(r.task_cx@.2 =~= zero_context_view().2);
        r
    }
}

} // verus!


verus! {

/// The mutable part of the task manager: which task runs, and every slot.
pub struct TaskManagerInner {
    pub current_task: usize,
    pub tcbs: [TaskControlBlock; MAX_APP_NUM],
}

/// The round-robin task manager over `num` applications.
pub struct TaskManager {
    pub num: usize,
    pub inner: TaskManagerInner,
}

impl View for TaskManager {
    type V = TaskManagerModel;

    open spec fn view(&self) -> TaskManagerModel {
        TaskManagerModel { num: self.num, current: self.inner.current_task, tcbs: self.inner.tcbs@ }
    }
}

impl TaskManager {
    /// The slot of the task that runs now.
    pub fn get_current_app_id(&self) -> (r: usize)
        ensures
            r == self@.current,
    {
        self.inner.current_task
    }

    /// The next slot to run in round-robin order: the first ready slot after
    /// the current one, going round once and looking at the current slot
    /// last; `None` when no application is ready.
    pub fn find_a_task(&self) -> (r: Option<usize>)
        requires
            self@.wf(),
            self.num > 0,
        ensures
            r == self@.next_ready(),
            r matches Some(t) ==> t < self.num && self@.is_ready(t as int),
            r matches Some(t) ==> (t == self.inner.current_task ==> forall|i: int|
                0 <= i < self.num && i != self.inner.current_task ==> !#[trigger] self@.is_ready(i)),
            r is None <==> forall|i: int| 0 <= i < self.num ==> !#[trigger] self@.is_ready(i),
    {
        proof {
            lemma_next_ready_round_robin(self@);
        }
        let ghost m = self@;
        let num = self.num;
        let cur = self.inner.current_task;
        proof {
            lemma_cyclic_slot(cur as nat, 1, num as nat);
        }
        let mut curr: usize = (cur + 1) % num;
        let ghost mut k: nat = 1;
        while self.inner.tcbs[curr].task_status != TaskStatus::Ready
            invariant
                m == self@,
                m.wf(),
                num == self.num,
                cur == self.inner.current_task,
                num > 0,
                1 <= k <= num,
                curr == m.slot_after(k),
                m.next_ready() == m.first_ready_from(k),
            decreases num - k,
        {
            proof {
                m.lemma_slot_after_in_lap(k);
            }
            if curr == cur {
                assert(m.first_ready_from(k + 1) == None::<usize>);
                proof {
                    lemma_next_ready_round_robin(m);
                }
                return None;
            }
            proof {
                lemma_cyclic_slot(cur as nat, k, num as nat);
                lemma_cyclic_slot(cur as nat, k + 1, num as nat);
                lemma_cyclic_slot(curr as nat, 1, num as nat);
            }
            curr = (curr + 1) % num;
            proof {
                k = k + 1;
            }
        }
        Some(curr)
    }

    /// Sets the status of slot `task_id`, keeping its context.
    fn set_status(&mut self, task_id: usize, st: TaskStatus)
        requires
            task_id < MAX_APP_NUM,
        ensures
            final(self)@ == old(self)@.with_status(task_id as int, st),
    {
        let mut tcb = self.inner.tcbs[task_id];
        tcb.task_status = st;
        self.inner.tcbs[task_id] = tcb;
        assert(self@.tcbs =~= old(self)@.with_status(task_id as int, st).tcbs);
    }

    /// Marks slot `task_id` ready to run again.
    pub fn suspend_task(&mut self, task_id: usize)
        requires
            task_id < MAX_APP_NUM,
        ensures
            final(self)@ == old(self)@.with_status(task_id as int, TaskStatus::Ready),
    {
        self.set_status(task_id, TaskStatus::Ready);
    }

    /// Marks slot `task_id` exited.
    pub fn exit_task(&mut self, task_id: usize)
        requires
            task_id < MAX_APP_NUM,
        ensures
            final(self)@ == old(self)@.with_status(task_id as int, TaskStatus::Exited),
    {
        self.set_status(task_id, TaskStatus::Exited);
    }

    /// Makes slot 0 current and running; the kernel then resumes its context.
    /// Returns the slot to resume.
    pub fn run_first_task(&mut self) -> (r: usize)
        ensures
            r == 0,
            final(self)@ == old(self)@.start(),
            final(self).inner.current_task == 0,
            final(self).inner.tcbs@[0].task_status == TaskStatus::Running,
            forall|i: int|
                0 <= i < MAX_APP_NUM ==> #[trigger] final(self).inner.tcbs@[i].task_cx
                    == old(self).inner.tcbs@[i].task_cx,
            forall|i: int|
                1 <= i < MAX_APP_NUM ==> #[trigger] final(self).inner.tcbs@[i] == old(
                    self,
                ).inner.tcbs@[i],
    {
        self.inner.current_task = 0;
        self.set_status(0, TaskStatus::Running);
        0
    }

    /// Picks the next task in round-robin order and makes it current and
    /// running; says which contexts to switch between, or to shut down when
    /// no task is ready.
    pub fn run_next_task(&mut self) -> (r: SwitchAction)
        requires
            old(self)@.wf(),
            old(self).num > 0,
        ensures
            (final(self)@, r) == old(self)@.run_next(),
            r matches SwitchAction::Switch { from, to } ==> from == old(self).inner.current_task
                && to == final(self).inner.current_task && final(self).inner.tcbs@[to as int].task_status
                == TaskStatus::Running && old(self)@.is_ready(to as int),
            r == SwitchAction::Shutdown <==> forall|i: int|
                0 <= i < old(self).num ==> !#[trigger] old(self)@.is_ready(i),
            forall|i: int|
                0 <= i < MAX_APP_NUM ==> #[trigger] final(self).inner.tcbs@[i].task_cx
                    == old(self).inner.tcbs@[i].task_cx,
    {
        let next_task = self.find_a_task();
        let current_task = self.inner.current_task;
        match next_task {
            Some(task_id) => {
                self.inner.current_task = task_id;
                self.set_status(task_id, TaskStatus::Running);
                SwitchAction::Switch { from: current_task, to: task_id }
            },
            None => SwitchAction::Shutdown,
        }
    }

    /// The task manager at boot: `app_num` applications, each in its own slot,
    /// ready, resuming at `init_ra` on the kernel stack pointer `kernel_sps[i]`;
    /// the other slots hold no task; slot 0 is current.
    pub fn new(app_num: usize, init_ra: usize, kernel_sps: &[usize]) -> (r: TaskManager)
        requires
            app_num <= MAX_APP_NUM,
            app_num <= kernel_sps@.len(),
        ensures
            r@.wf(),
            r@.num == app_num,
            r@.current == 0,
            forall|i: int|
                0 <= i < app_num ==> #[trigger] r@.tcbs[i].task_status == TaskStatus::Ready
                    && r@.tcbs[i].task_cx@ == (init_ra, kernel_sps@[i], zero_context_view().2),
            forall|i: int|
                app_num <= i < MAX_APP_NUM ==> #[trigger] r@.tcbs[i].task_status
                    == TaskStatus::UnInit && r@.tcbs[i].task_cx@ == zero_context_view(),
    {
        let blank = TaskControlBlock::uninit();
        let mut tcbs = [blank; MAX_APP_NUM];
        for i in 0..app_num
            invariant
                app_num <= MAX_APP_NUM,
                app_num <= kernel_sps@.len(),
                blank.task_status == TaskStatus::UnInit,
                blank.task_cx@ == zero_context_view(),
                forall|j: int|
                    0 <= j < i ==> #[trigger] tcbs@[j].task_status == TaskStatus::Ready
                        && tcbs@[j].task_cx@ == (init_ra, kernel_sps@[j], zero_context_view().2),
                forall|j: int| i <= j < MAX_APP_NUM ==> #[trigger] tcbs@[j] == blank,
        {
            let cx = TaskContext::new(init_ra, kernel_sps[i], [0; 12]);
            assert(cx@.2 =~= zero_context_view().2);
            tcbs[i] = TaskControlBlock { task_status: TaskStatus::Ready, task_cx: cx };
        }
        TaskManager { num: app_num, inner: TaskManagerInner { current_task: 0, tcbs: tcbs } }
    }
}

} // verus!
