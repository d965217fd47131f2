//! Task lifecycle: suspending, blocking and exiting the running task, with
//! the bookkeeping of processes, threads and the ready queue that goes with
//! it. Switching stacks is left to the caller: each operation returns the
//! [`Switch`] to perform.
use vstd::prelude::*;

pub mod context;

use context::TaskContext;

verus! {

/// The scheduling state of a task.
#[derive(Copy, Clone, Debug, PartialEq, Eq, Structural)]
pub enum TaskStatus {
    /// Waiting in the ready queue.
    Ready,
    /// On the processor.
    Running,
    /// Waiting for an event; not in the ready queue.
    Blocking,
}

/// A task (a thread of a process).
#[derive(Copy, Clone, Debug)]
pub struct TaskControlBlock {
    /// Index of the owning process in [`Kernel::processes`] (its pid).
    pub process: usize,
    /// The thread id while the thread holds its user resources (thread id,
    /// user stack, trap context); `None` once they were released.
    pub res: Option<usize>,
    /// The saved registers of the task.
    pub task_ctx: TaskContext,
    pub task_status: TaskStatus,
    /// The exit code, once the task exited.
    pub exit_code: Option<i32>,
}

/// A process.
#[derive(Debug)]
pub struct ProcessControlBlock {
    pub pid: usize,
    /// The process exited and waits to be reaped by its parent.
    pub is_zombie: bool,
    pub exit_code: i32,
    pub parent: Option<usize>,
    /// The pids of the child processes.
    pub children: Vec<usize>,
    /// The tasks of the process, indexed by thread id.
    pub tasks: Vec<Option<usize>>,
    /// Whether the user data pages (program code and data) are mapped.
    pub data_pages_mapped: bool,
    /// The open files, indexed by file descriptor.
    pub fd_table: Vec<Option<usize>>,
}

/// The abstract state of a process.
#[verifier::ext_equal]
pub struct ProcessState {
    pub pid: usize,
    pub is_zombie: bool,
    pub exit_code: i32,
    pub parent: Option<usize>,
    pub children: Seq<usize>,
    pub tasks: Seq<Option<usize>>,
    pub data_pages_mapped: bool,
    pub fd_table: Seq<Option<usize>>,
}

impl View for ProcessControlBlock {
    type V = ProcessState;

    open spec fn view(&self) -> ProcessState {
        ProcessState {
            pid: self.pid,
            is_zombie: self.is_zombie,
            exit_code: self.exit_code,
            parent: self.parent,
            children: self.children@,
            tasks: self.tasks@,
            data_pages_mapped: self.data_pages_mapped,
            fd_table: self.fd_table@,
        }
    }
}

/// The tasks and processes of the system, the queue of tasks ready to run,
/// and the task on the processor. Process `0` is the initial process, which
/// adopts orphans.
pub struct Kernel {
    pub tasks: Vec<TaskControlBlock>,
    pub processes: Vec<ProcessControlBlock>,
    /// Ready tasks, the next to run first.
    pub ready_queue: Vec<usize>,
    /// The task on the processor.
    pub current: Option<usize>,
}

/// The abstract state of the system.
#[verifier::ext_equal]
pub struct KernelState {
    pub tasks: Seq<TaskControlBlock>,
    pub processes: Seq<ProcessState>,
    pub ready_queue: Seq<usize>,
    pub current: Option<usize>,
}

impl View for Kernel {
    type V = KernelState;

    open spec fn view(&self) -> KernelState {
        KernelState {
            tasks: self.tasks@,
            processes: self.processes@.map_values(|p: ProcessControlBlock| p@),
            ready_queue: self.ready_queue@,
            current: self.current,
        }
    }
}

/// What the caller does after a lifecycle operation: switch to the
/// scheduler.
#[derive(Debug)]
pub enum Switch {
    /// Store the registers of the running code in the context of the
    /// given task.
    SaveInto(usize),
    /// Save them into this scratch context, which is then dropped.
    Discard(TaskContext),
}

/// Every index the state holds points into it, and parent links agree
/// with child lists.
pub open spec fn kernel_wf(k: KernelState) -> bool {
    let np = k.processes.len();
    let nt = k.tasks.len();
    &&& np > 0
    &&& forall|q: int| 0 <= q < np ==> (#[trigger] k.processes[q]).pid == q
    &&& forall|q: int| 0 <= q < np ==> ((#[trigger] k.processes[q]).parent matches Some(r) ==> r < np)
    &&& forall|q: int, i: int|
        0 <= q < np && 0 <= i < k.processes[q].children.len() ==> {
            let c = #[trigger] k.processes[q].children[i];
            c < np && k.processes[c as int].parent == Some(q as usize)
        }
    &&& forall|q: int, i: int|
        0 <= q < np && 0 <= i < k.processes[q].tasks.len() ==> (
        #[trigger] k.processes[q].tasks[i] matches Some(u) ==> u < nt)
    &&& forall|u: int| 0 <= u < nt ==> (#[trigger] k.tasks[u]).process < np
    &&& forall|i: int| 0 <= i < k.ready_queue.len() ==> #[trigger] k.ready_queue[i] < nt
    &&& (k.current matches Some(u) ==> u < nt)
}

/// The state after the running task stopped running with status `status`.
pub open spec fn descheduled(k: KernelState, status: TaskStatus) -> KernelState {
    let t = k.current->0 as int;
    KernelState {
        tasks: k.tasks.update(t, TaskControlBlock { task_status: status, ..k.tasks[t] }),
        current: None,
        ..k
    }
}

/// The state after the running task exited with `code`: it records the
/// code and releases its user resources. When it was the main thread
/// (thread id 0) the whole process exits: it becomes a zombie with the
/// code, its children are handed to the initial process (unless it is the
/// initial process), every thread releases its user resources, and its
/// data pages and open files are dropped.
pub open spec fn exited(k: KernelState, code: i32) -> KernelState {
    let t = k.current->0 as int;
    let p = k.tasks[t].process as int;
    let tid = k.tasks[t].res->0;
    let tasks1 = k.tasks.update(
        t,
        TaskControlBlock { exit_code: Some(code), res: None, ..k.tasks[t] },
    );
    if tid != 0 {
        KernelState { tasks: tasks1, current: None, ..k }
    } else {
        let pp = k.processes[p];
        KernelState {
            tasks: Seq::new(
                tasks1.len(),
                |u: int|
                    if pp.tasks.contains(Some(u as usize)) {
                        TaskControlBlock { res: None, ..tasks1[u] }
                    } else {
                        tasks1[u]
                    },
            ),
            processes: Seq::new(
                k.processes.len(),
                |q: int|
                    ProcessState {
                        is_zombie: if q == p {
                            true
                        } else {
                            k.processes[q].is_zombie
                        },
                        exit_code: if q == p {
                            code
                        } else {
                            k.processes[q].exit_code
                        },
                        parent: if p != 0 && pp.children.contains(q as usize) {
                            Some(0)
                        } else {
                            k.processes[q].parent
                        },
                        children: if q == p {
                            Seq::empty()
                        } else if q == 0 && p != 0 {
                            k.processes[0].children + pp.children
                        } else {
                            k.processes[q].children
                        },
                        data_pages_mapped: if q == p {
                            false
                        } else {
                            k.processes[q].data_pages_mapped
                        },
                        fd_table: if q == p {
                            Seq::empty()
                        } else {
                            k.processes[q].fd_table
                        },
                        ..k.processes[q]
                    },
            ),
            current: None,
            ..k
        }
    }
}

impl Kernel {
    /// The state is consistent.
    pub open spec fn wf(&self) -> bool {
        kernel_wf(self@)
    }

    /// Hands the children of process `p` to the initial process.
    fn adopt_children(&mut self, p: usize)
        requires
            0 < p < old(self).processes.len(),
            old(self).processes.len() > 0,
            forall|i: int|
                0 <= i < old(self)@.processes[p as int].children.len() ==> #[trigger] old(
                    self,
                )@.processes[p as int].children[i] < old(self)@.processes.len(),
        ensures
            final(self)@.tasks == old(self)@.tasks,
            final(self)@.ready_queue == old(self)@.ready_queue,
            final(self)@.current == old(self)@.current,
            final(self).processes.len() == old(self).processes.len(),
            final(self)@.processes.len() == old(self)@.processes.len(),
            forall|q: int|
                0 <= q < final(self)@.processes.len() ==> #[trigger] final(self)@.processes[q]
                    == (ProcessState {
                    parent: if old(self)@.processes[p as int].children.contains(q as usize) {
                        Some(0)
                    } else {
                        old(self)@.processes[q].parent
                    },
                    children: if q == p {
                        Seq::empty()
                    } else if q == 0 {
                        old(self)@.processes[0].children + old(self)@.processes[p as int].children
                    } else {
                        old(self)@.processes[q].children
                    },
                    ..old(self)@.processes[q]
                }),
    {
        let ghost k0 = self@;
        let mut orphans: Vec<usize> = Vec::new();
        std::mem::swap(&mut orphans, &mut self.processes[p].children);
        let mut i: usize = 0;
        while i < orphans.len()
            invariant
                0 < p < self.processes.len(),
                orphans@ == k0.processes[p as int].children,
                i <= orphans.len(),
                self@.tasks == k0.tasks,
                self@.ready_queue == k0.ready_queue,
                self@.current == k0.current,
                self@.processes.len() == k0.processes.len(),
                forall|j: int| 0 <= j < orphans.len() ==> #[trigger] orphans@[j] < k0.processes.len(),
                forall|q: int|
                    0 <= q < self@.processes.len() ==> #[trigger] self@.processes[q] == (ProcessState {
                        parent: if orphans@.subrange(0, i as int).contains(q as usize) {
                            Some(0)
                        } else {
                            k0.processes[q].parent
                        },
                        children: if q == p {
                            Seq::empty()
                        } else if q == 0 {
                            k0.processes[0].children + orphans@.subrange(0, i as int)
                        } else {
                            k0.processes[q].children
                        },
                        ..k0.processes[q]
                    }),
            decreases orphans.len() - i,
        {
            let c = orphans[i];
            let ghost before = self@.processes;
            self.processes[c].parent = Some(0);
            let ghost mid = self@.processes;
            self.processes[0].children.push(c);
            proof {
                assert forall|q: int| 0 <= q < self@.processes.len() implies #[trigger] self@.processes[q]
                    == (ProcessState {
                        parent: if q == c as int {
                            Some(0usize)
                        } else {
                            before[q].parent
                        },
                        children: if q == 0 {
                            before[0].children.push(c)
                        } else {
                            before[q].children
                        },
                        ..before[q]
                    }) by {
                    assert(mid[q] == (ProcessState {
                        parent: if q == c as int {
                            Some(0usize)
                        } else {
                            before[q].parent
                        },
                        ..before[q]
                    }));
                }
                let prefix = orphans@.subrange(0, i as int);
                let next = orphans@.subrange(0, i + 1);
                assert(next =~= prefix.push(c));
                assert forall|q: int| 0 <= q < self@.processes.len() implies #[trigger] self@.processes[q]
                    == (ProcessState {
                        parent: if next.contains(q as usize) {
                            Some(0)
                        } else {
                            k0.processes[q].parent
                        },
                        children: if q == p {
                            Seq::empty()
                        } else if q == 0 {
                            k0.processes[0].children + next
                        } else {
                            k0.processes[q].children
                        },
                        ..k0.processes[q]
                    }) by {
                    vstd::seq_lib::lemma_seq_contains_after_push(prefix, c, q as usize);
                    if q == 0 {
                        assert(k0.processes[0].children + next =~= (k0.processes[0].children
                            + prefix).push(c));
                    }
                }
            }
            i = i + 1;
        }
        proof {
            assert(orphans@.subrange(0, orphans@.len() as int) =~= orphans@);
        }
    }

    /// Releases the user resources of every thread of process `p`.
    fn release_thread_resources(&mut self, p: usize, Ghost(tasks1): Ghost<Seq<TaskControlBlock>>)
        requires
            p < old(self).processes.len(),
            old(self)@.tasks == tasks1,
            forall|i: int|
                0 <= i < old(self)@.processes[p as int].tasks.len() ==> (
                #[trigger] old(self)@.processes[p as int].tasks[i] matches Some(u) ==> u
                    < tasks1.len()),
        ensures
            final(self).processes.len() == old(self).processes.len(),
            final(self)@.processes == old(self)@.processes,
            final(self)@.ready_queue == old(self)@.ready_queue,
            final(self)@.current == old(self)@.current,
            final(self)@.tasks == Seq::new(
                tasks1.len(),
                |u: int|
                    if old(self)@.processes[p as int].tasks.contains(Some(u as usize)) {
                        TaskControlBlock { res: None, ..tasks1[u] }
                    } else {
                        tasks1[u]
                    },
            ),
    {
        let ghost k0 = self@;
        let ghost slots = k0.processes[p as int].tasks;
        let n = self.processes[p].tasks.len();
        let mut i: usize = 0;
        while i < n
            invariant
                p < self.processes.len(),
                n == slots.len(),
                i <= n,
                self@.processes == k0.processes,
                self@.ready_queue == k0.ready_queue,
                self@.current == k0.current,
                slots == self@.processes[p as int].tasks,
                self.tasks.len() == tasks1.len(),
                forall|j: int| 0 <= j < slots.len() ==> (#[trigger] slots[j] matches Some(u) ==> u
                    < tasks1.len()),
                self@.tasks == Seq::new(
                    tasks1.len(),
                    |u: int|
                        if slots.subrange(0, i as int).contains(Some(u as usize)) {
                            TaskControlBlock { res: None, ..tasks1[u] }
                        } else {
                            tasks1[u]
                        },
                ),
            decreases n - i,
        {
            let slot = self.processes[p].tasks[i];
            let ghost before = self@.tasks;
            if let Some(u) = slot {
                self.tasks[u].res = None;
            }
            proof {
                let prefix = slots.subrange(0, i as int);
                let next = slots.subrange(0, i + 1);
                assert(next =~= prefix.push(slot));
                assert forall|v: int| 0 <= v < tasks1.len() implies #[trigger] self@.tasks[v] == (
                if next.contains(Some(v as usize)) {
                    TaskControlBlock { res: None, ..tasks1[v] }
                } else {
                    tasks1[v]
                }) by {
                    vstd::seq_lib::lemma_seq_contains_after_push(prefix, slot, Some(v as usize));
                    assert(before[v] == (if prefix.contains(Some(v as usize)) {
                        TaskControlBlock { res: None, ..tasks1[v] }
                    } else {
                        tasks1[v]
                    }));
                }
                assert(self@.tasks =~= Seq::new(
                    tasks1.len(),
                    |u: int|
                        if next.contains(Some(u as usize)) {
                            TaskControlBlock { res: None, ..tasks1[u] }
                        } else {
                            tasks1[u]
                        },
                ));
            }
            i = i + 1;
        }
        proof {
            assert(slots.subrange(0, n as int) =~= slots);
        }
    }
}

/// Blocks the running task: it leaves the processor with status
/// `Blocking` and is not queued; its registers are to be saved into its
/// context.
pub fn block_current_and_run_next(kernel: &mut Kernel) -> (sw: Switch)
    requires
        old(kernel).wf(),
        old(kernel)@.current is Some,
    ensures
        final(kernel).wf(),
        final(kernel)@ == descheduled(old(kernel)@, TaskStatus::Blocking),
        sw matches Switch::SaveInto(t) && t == old(kernel)@.current->0,
{
    let t = kernel.current.take().unwrap();
    kernel.tasks[t].task_status = TaskStatus::Blocking;
    proof {
        assert(kernel@.processes =~= old(kernel)@.processes);
    }
    Switch::SaveInto(t)
}

/// Suspends the running task: it leaves the processor with status
/// `Ready` and joins the back of the ready queue; its registers are to
/// be saved into its context.
pub fn suspend_current_and_run_next(kernel: &mut Kernel) -> (sw: Switch)
    requires
        old(kernel).wf(),
        old(kernel)@.current is Some,
    ensures
        final(kernel).wf(),
        final(kernel)@ == (KernelState {
            ready_queue: old(kernel)@.ready_queue.push(old(kernel)@.current->0),
            ..descheduled(old(kernel)@, TaskStatus::Ready)
        }),
        sw matches Switch::SaveInto(t) && t == old(kernel)@.current->0,
{
    let t = kernel.current.take().unwrap();
    kernel.tasks[t].task_status = TaskStatus::Ready;
    add_task(kernel, t);
    proof {
        assert(kernel@.processes =~= old(kernel)@.processes);
    }
    Switch::SaveInto(t)
}

/// Ends the running task with `exit_code`; when it is the main thread
/// the whole process exits (see [`exited`]). Its registers need not be
/// kept: the switch saves them into a zeroed scratch context.
pub fn exit_current_and_run_next(kernel: &mut Kernel, exit_code: i32) -> (sw: Switch)
    requires
        old(kernel).wf(),
        old(kernel)@.current is Some,
        old(kernel)@.tasks[old(kernel)@.current->0 as int].res is Some,
    ensures
        final(kernel).wf(),
        final(kernel)@ == exited(old(kernel)@, exit_code),
        sw matches Switch::Discard(ctx) && ctx.ra == 0 && ctx.sp == 0 && ctx.saved_regs_zero(),
{
    let ghost k0 = kernel@;
    let t = kernel.current.take().unwrap();
    let p = kernel.tasks[t].process;
    let tid = kernel.tasks[t].res.unwrap();
    kernel.tasks[t].exit_code = Some(exit_code);
    kernel.tasks[t].res = None;
    if tid == 0 {
        let ghost tasks1 = kernel@.tasks;
        kernel.processes[p].is_zombie = true;
        kernel.processes[p].exit_code = exit_code;
        let ghost kz = kernel@;
        assert forall|q: int| 0 <= q < kz.processes.len() implies #[trigger] kz.processes[q] == (
        if q == p as int {
            ProcessState { is_zombie: true, exit_code, ..k0.processes[q] }
        } else {
            k0.processes[q]
        }) by {}
        if p != 0 {
            kernel.adopt_children(p);
        }
        let ghost ka = kernel@;
        kernel.release_thread_resources(p, Ghost(tasks1));
        kernel.processes[p].children.clear();
        kernel.processes[p].data_pages_mapped = false;
        kernel.processes[p].fd_table.clear();
        assert forall|q: int| 0 <= q < kernel@.processes.len() implies #[trigger] kernel@.processes[q]
            == (if q == p as int {
            ProcessState {
                children: Seq::empty(),
                data_pages_mapped: false,
                fd_table: Seq::empty(),
                ..ka.processes[q]
            }
        } else {
            ka.processes[q]
        }) by {}
        proof {
            let k1 = exited(k0, exit_code);
            let pp = k0.processes[p as int];
            assert(kernel@.tasks =~= k1.tasks);
            assert(kernel@.processes.len() == k1.processes.len());
            assert forall|q: int| 0 <= q < kernel@.processes.len() implies #[trigger] kernel@.processes[q]
                =~~= k1.processes[q] by {
                assert(kz.processes[q].children == k0.processes[q].children);
                assert(kz.processes[q].parent == k0.processes[q].parent);
                assert(kz.processes[p as int].children == pp.children);
                if p == 0 {
                    assert(ka.processes[q] == kz.processes[q]);
                }
            }
            assert(kernel@.processes =~~= k1.processes);
            assert(kernel@ =~~= k1);
        }
    } else {
        proof {
            assert(kernel@.processes =~= k0.processes);
        }
    }
    Switch::Discard(TaskContext::zero_init())
}

/// Puts task `t` at the back of the ready queue.
pub fn add_task(kernel: &mut Kernel, t: usize)
    requires
        old(kernel).wf(),
        t < old(kernel)@.tasks.len(),
    ensures
        final(kernel).wf(),
        final(kernel)@ == (KernelState { ready_queue: old(kernel)@.ready_queue.push(t), ..old(kernel)@ }),
{
    kernel.ready_queue.push(t);
    proof {
        assert(kernel@.processes =~= old(kernel)@.processes);
    }
}

/// When the main thread of a process other than the initial one exits, each
/// of its children gets the initial process as parent and joins the
/// initial process's children after those it had; the exited process keeps
/// no child.
pub proof fn law_exit_hands_children_to_init(k: KernelState, code: i32)
    requires
        kernel_wf(k),
        k.current is Some,
        k.tasks[k.current->0 as int].res == Some(0usize),
        k.tasks[k.current->0 as int].process != 0,
    ensures
        ({
            let p = k.tasks[k.current->0 as int].process as int;
            let k1 = exited(k, code);
            &&& forall|i: int|
                0 <= i < k.processes[p].children.len() ==> {
                    let c = #[trigger] k.processes[p].children[i] as int;
                    &&& k1.processes[c].parent == Some(0usize)
                    &&& k1.processes[0].children.contains(c as usize)
                }
            &&& k1.processes[0].children == k.processes[0].children + k.processes[p].children
            &&& k1.processes[p].children.len() == 0
        }),
{
    let p = k.tasks[k.current->0 as int].process as int;
    let k1 = exited(k, code);
    assert forall|i: int| 0 <= i < k.processes[p].children.len() implies {
        let c = #[trigger] k.processes[p].children[i] as int;
        &&& k1.processes[c].parent == Some(0usize)
        &&& k1.processes[0].children.contains(c as usize)
    } by {
        let c = k.processes[p].children[i];
        assert(k.processes[p].children.contains(c));
        let all = k.processes[0].children + k.processes[p].children;
        assert(all[k.processes[0].children.len() + i] == c);
    }
}

/// When the main thread of a process exits, the process becomes a zombie
/// holding the exit code, every one of its threads has released its user
/// resources, and its data pages and open files are gone. Any exiting
/// thread records the code and releases its own resources.
pub proof fn law_exit_ends_process(k: KernelState, code: i32)
    requires
        kernel_wf(k),
        k.current is Some,
        k.tasks[k.current->0 as int].res is Some,
    ensures
        ({
            let t = k.current->0 as int;
            let p = k.tasks[t].process as int;
            let k1 = exited(k, code);
            &&& k1.tasks[t].exit_code == Some(code)
            &&& k1.tasks[t].res is None
            &&& k1.current is None
            &&& k1.ready_queue == k.ready_queue
            &&& k.tasks[t].res == Some(0usize) ==> {
                &&& k1.processes[p].is_zombie
                &&& k1.processes[p].exit_code == code
                &&& !k1.processes[p].data_pages_mapped
                &&& k1.processes[p].fd_table.len() == 0
                &&& forall|i: int|
                    0 <= i < k.processes[p].tasks.len() ==> (#[trigger] k.processes[p].tasks[i] matches Some(
                        u,
                    ) ==> k1.tasks[u as int].res is None)
            }
        }),
{
    let t = k.current->0 as int;
    let p = k.tasks[t].process as int;
    if k.tasks[t].res == Some(0usize) {
        assert forall|i: int| 0 <= i < k.processes[p].tasks.len() implies (
        #[trigger] k.processes[p].tasks[i] matches Some(u) ==> exited(k, code).tasks[u as int].res is None) by {
            if let Some(u) = k.processes[p].tasks[i] {
                assert(k.processes[p].tasks.contains(Some(u)));
            }
        }
    }
}

/// When a thread other than the main thread exits, no process changes and
/// no other task changes.
pub proof fn law_thread_exit_keeps_others(k: KernelState, code: i32)
    requires
        kernel_wf(k),
        k.current is Some,
        k.tasks[k.current->0 as int].res matches Some(tid) && tid != 0,
    ensures
        exited(k, code).processes == k.processes,
        forall|u: int|
            0 <= u < k.tasks.len() && u != k.current->0 ==> #[trigger] exited(k, code).tasks[u]
                == k.tasks[u],
{
}

/// Blocking, suspending and exiting keep the state consistent.
pub proof fn law_lifecycle_keeps_wf(k: KernelState, code: i32)
    requires
        kernel_wf(k),
        k.current is Some,
    ensures
        kernel_wf(descheduled(k, TaskStatus::Blocking)),
        kernel_wf(
            KernelState {
                ready_queue: k.ready_queue.push(k.current->0),
                ..descheduled(k, TaskStatus::Ready)
            },
        ),
        k.tasks[k.current->0 as int].res is Some ==> kernel_wf(exited(k, code)),
{
    let ks = KernelState {
        ready_queue: k.ready_queue.push(k.current->0),
        ..descheduled(k, TaskStatus::Ready)
    };
    assert forall|i: int| 0 <= i < ks.ready_queue.len() implies #[trigger] ks.ready_queue[i]
        < ks.tasks.len() by {
        if i < k.ready_queue.len() {
            assert(ks.ready_queue[i] == k.ready_queue[i]);
        }
    }
}

/// Blocking or suspending the running task changes its status alone: the
/// task records the new status and keeps everything else, and every other
/// task, every process and the tasks already queued stay as they were; the
/// processor is left idle.
pub proof fn law_deschedule_touches_only_current(k: KernelState, status: TaskStatus)
    requires
        kernel_wf(k),
        k.current is Some,
    ensures
        ({
            let t = k.current->0 as int;
            let k1 = descheduled(k, status);
            &&& k1.tasks.len() == k.tasks.len()
            &&& k1.tasks[t].task_status == status
            &&& k1.tasks[t].process == k.tasks[t].process
            &&& k1.tasks[t].res == k.tasks[t].res
            &&& k1.tasks[t].exit_code == k.tasks[t].exit_code
            &&& k1.tasks[t].task_ctx == k.tasks[t].task_ctx
            &&& forall|u: int| 0 <= u < k.tasks.len() && u != t ==> #[trigger] k1.tasks[u] == k.tasks[u]
            &&& k1.processes == k.processes
            &&& k1.ready_queue == k.ready_queue
            &&& k1.current is None
        }),
{
}

/// Exiting changes no other process's zombie state or exit code: only the
/// exiting process can become a zombie, and the children handed to the
/// initial process keep running. Processes other than the exiting one and
/// the initial one change at most their parent; tasks that are not threads
/// of the exiting process do not change at all.
pub proof fn law_exit_spares_other_processes(k: KernelState, code: i32)
    requires
        kernel_wf(k),
        k.current is Some,
        k.tasks[k.current->0 as int].res is Some,
    ensures
        ({
            let t = k.current->0 as int;
            let p = k.tasks[t].process as int;
            let k1 = exited(k, code);
            &&& k1.processes.len() == k.processes.len()
            &&& k1.tasks.len() == k.tasks.len()
            &&& forall|q: int|
                0 <= q < k.processes.len() && q != p ==> {
                    &&& (#[trigger] k1.processes[q]).is_zombie == k.processes[q].is_zombie
                    &&& k1.processes[q].exit_code == k.processes[q].exit_code
                    &&& k1.processes[q].pid == k.processes[q].pid
                    &&& k1.processes[q].tasks == k.processes[q].tasks
                    &&& k1.processes[q].data_pages_mapped == k.processes[q].data_pages_mapped
                    &&& k1.processes[q].fd_table == k.processes[q].fd_table
                    &&& q != 0 ==> k1.processes[q].children == k.processes[q].children
                }
            &&& forall|u: int|
                0 <= u < k.tasks.len() && u != t && !k.processes[p].tasks.contains(
                    Some(u as usize),
                ) ==> #[trigger] k1.tasks[u] == k.tasks[u]
        }),
{
}

} // verus!
