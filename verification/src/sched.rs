//! Scheduler: five priority levels, one intrusive FIFO per level over a
//! shared node pool, tick-driven time slices.
//!
//! `enqueue` appends a task to the queue of its priority; `pick_next`
//! scans the levels from highest to lowest and dequeues the first
//! non-empty one, falling back to the idle task.  A queue only ever holds
//! tasks of its own priority, so no task can sit in two queues.

use vstd::prelude::*;
use vstd::string::StrSliceExecFns;
use crate::intrusive::{IntrusiveNode, IntrusiveQueue};

verus! {

/// Process ID type
pub type Pid = u32;

/// Task state
#[derive(Clone, Copy, Debug, PartialEq, Eq, Structural)]
pub enum TaskState {
    /// Task is ready to run
    Ready,
    /// Task is currently running
    Running,
    /// Task is blocked waiting for something
    Blocked,
    /// Task has exited
    Zombie,
}

/// Task priority levels
#[derive(Clone, Copy, Debug, PartialEq, Eq, Structural)]
pub enum Priority {
    /// Idle priority (lowest)
    Idle,
    /// Low priority
    Low,
    /// Normal priority (default)
    Normal,
    /// High priority
    High,
    /// Real-time priority (highest)
    Realtime,
}

impl Priority {
    /// The queue level this priority selects.
    pub open spec fn spec_level(&self) -> int {
        match self {
            Priority::Idle => 0,
            Priority::Low => 1,
            Priority::Normal => 2,
            Priority::High => 3,
            Priority::Realtime => 4,
        }
    }

    /// The queue level this priority selects.
    pub fn level(&self) -> (r: usize)
        ensures
            r == self.spec_level(),
            r < 5,
    {
        match self {
            Priority::Idle => 0,
            Priority::Low => 1,
            Priority::Normal => 2,
            Priority::High => 3,
            Priority::Realtime => 4,
        }
    }
}

impl Default for Priority {
    fn default() -> (r: Priority)
        ensures
            r == Priority::Normal,
    {
        Priority::Normal
    }
}

/// Number of priority levels
pub const NUM_PRIORITIES: usize = 5;

/// Task control block.  Its run-queue linkage lives in the scheduler's
/// node pool at the task's own index.
pub struct Task {
    /// Process ID
    pub pid: Pid,
    /// Parent process ID
    pub ppid: Pid,
    /// Task name (for debugging), at most 15 characters
    pub name: String,
    /// Current state
    pub state: TaskState,
    /// Priority level
    pub priority: Priority,
    /// Time slice remaining (in ticks)
    pub time_slice: u32,
    /// Total CPU time used (in ticks)
    pub cpu_time: u64,
    /// Saved general registers
    pub eax: u32,
    pub ebx: u32,
    pub ecx: u32,
    pub edx: u32,
    pub esi: u32,
    pub edi: u32,
    pub ebp: u32,
    pub esp: u32,
    pub eip: u32,
    pub eflags: u32,
    /// Saved page directory
    pub cr3: u32,
    /// Kernel stack pointer
    pub kernel_stack: u32,
    /// User stack pointer
    pub user_stack: u32,
}

impl Task {
    /// Create a new ready task with a fresh time slice.
    pub fn new(pid: Pid, name: &str, priority: Priority) -> (r: Task)
        ensures
            r.pid == pid,
            r.state == TaskState::Ready,
            r.priority == priority,
            r.time_slice == 10,
            r.cpu_time == 0,
            r.name@ == (if name@.len() <= 15 {
                name@
            } else {
                name@.take(15)
            }),
    {
        let name_owned: String = if name.unicode_len() <= 15 {
            name.to_owned()
        } else {
            name.substring_char(0, 15).to_owned()
        };
        Task {
            pid,
            ppid: 0,
            name: name_owned,
            state: TaskState::Ready,
            priority,
            time_slice: 10,
            cpu_time: 0,
            eax: 0,
            ebx: 0,
            ecx: 0,
            edx: 0,
            esi: 0,
            edi: 0,
            ebp: 0,
            esp: 0,
            eip: 0,
            eflags: 0x202,
            cr3: 0,
            kernel_stack: 0,
            user_stack: 0,
        }
    }

    /// The task name as a string slice.
    pub fn name_str(&self) -> (r: &str)
        ensures
            r@ == self.name@,
    {
        self.name.as_str()
    }
}

/// Multi-level run-queue scheduler.
pub struct Scheduler {
    /// The task table
    pub tasks: Vec<Task>,
    /// Run-queue linkage, one node per task
    pub run_links: Vec<IntrusiveNode>,
    /// One FIFO per priority level
    pub run_queues: Vec<IntrusiveQueue>,
    /// Currently running task, by table index
    pub current: Option<usize>,
    /// Idle task, by table index
    pub idle_task: Option<usize>,
    /// Number of tasks waiting in the run queues
    pub ready_count: usize,
    /// Total context switches
    pub context_switches: u64,
    /// Next process id to hand out
    pub next_pid: Pid,
}

impl Scheduler {
    /// The members of run queue `q`, front first.
    pub closed spec fn queue_model(&self, q: int) -> Seq<usize> {
        self.run_queues@[q]@
    }

    /// The scheduler invariant: one node per task, five well-formed
    /// queues over the pool, each holding only valid indices of tasks of
    /// its own priority, and the ready counter totalling the queues.
    pub closed spec fn wf(&self) -> bool {
        &&& self.run_links.len() == self.tasks.len()
        &&& self.run_queues.len() == NUM_PRIORITIES
        &&& forall|q: int| 0 <= q < 5 ==> (#[trigger] self.run_queues@[q]).wf(self.run_links@)
        &&& forall|q: int, k: int|
            0 <= q < 5 && 0 <= k < self.queue_model(q).len() ==> (#[trigger] self.queue_model(
                q,
            )[k]) < self.tasks.len()
        &&& forall|q: int, k: int|
            0 <= q < 5 && 0 <= k < self.queue_model(q).len()
                ==> self.tasks@[self.queue_model(q)[k] as int].priority.spec_level() == q
        &&& self.ready_count == self.queue_model(0).len() + self.queue_model(1).len()
            + self.queue_model(2).len() + self.queue_model(3).len() + self.queue_model(4).len()
        &&& (match self.current {
            Some(c) => c < self.tasks.len(),
            None => true,
        })
        &&& (match self.idle_task {
            Some(c) => c < self.tasks.len(),
            None => true,
        })
    }

    /// Create a new empty scheduler.
    pub fn new() -> (r: Scheduler)
        ensures
            r.wf(),
            r.tasks@.len() == 0,
            r.current is None,
            r.idle_task is None,
            r.ready_count == 0,
            r.context_switches == 0,
            r.next_pid == 1,
    {
        let mut run_queues: Vec<IntrusiveQueue> = Vec::new();
        let mut q: usize = 0;
        while q < NUM_PRIORITIES
            invariant
                q <= NUM_PRIORITIES,
                run_queues@.len() == q,
                forall|i: int|
                    0 <= i < q ==> (#[trigger] run_queues@[i])@ == Seq::<usize>::empty() && forall|
                        nodes: Seq<IntrusiveNode>,
                    | run_queues@[i].wf(nodes),
            decreases NUM_PRIORITIES - q,
        {
            run_queues.push(IntrusiveQueue::new());
            q += 1;
        }
        Scheduler {
            tasks: Vec::new(),
            run_links: Vec::new(),
            run_queues,
            current: None,
            idle_task: None,
            ready_count: 0,
            context_switches: 0,
            next_pid: 1,
        }
    }

    /// Add a task to the table, assigning it the next pid; its index is
    /// returned.  The task starts outside every queue.
    pub fn spawn(&mut self, name: &str, priority: Priority) -> (r: usize)
        requires
            old(self).wf(),
            old(self).tasks@.len() < 1000,
            old(self).next_pid < 0xFFFFFFFF,
        ensures
            final(self).wf(),
            r == old(self).tasks@.len(),
            final(self).tasks@.len() == old(self).tasks@.len() + 1,
            final(self).tasks@[r as int].pid == old(self).next_pid,
            final(self).tasks@[r as int].priority == priority,
            final(self).tasks@[r as int].state == TaskState::Ready,
            final(self).next_pid == old(self).next_pid + 1,
            forall|q: int| 0 <= q < 5 ==> final(self).queue_model(q) == old(self).queue_model(q),
            forall|i: int|
                0 <= i < old(self).tasks@.len() ==> final(self).tasks@[i] == old(self).tasks@[i],
            final(self).current == old(self).current,
            final(self).ready_count == old(self).ready_count,
    {
        let idx = self.tasks.len();
        let pid = self.next_pid;
        self.next_pid = pid + 1;
        let task = Task::new(pid, name, priority);
        self.tasks.push(task);
        self.run_links.push(IntrusiveNode::new());
        proof {
            assert forall|q: int| 0 <= q < 5 implies (#[trigger] self.run_queues@[q]).wf(
                self.run_links@,
            ) by {
                crate::intrusive::lemma_queue_wf_extend(&self.run_queues@[q],
                    old(self).run_links@, self.run_links@);
            }
        }
        idx
    }

    /// Add a task to the run queue of its priority.
    pub fn enqueue(&mut self, task_idx: usize)
        requires
            old(self).wf(),
            task_idx < old(self).tasks@.len(),
            forall|q: int| 0 <= q < 5 ==> !(#[trigger] old(self).queue_model(q)).contains(task_idx),
            old(self).ready_count < 100000,
        ensures
            final(self).wf(),
            ({
                let lvl = old(self).tasks@[task_idx as int].priority.spec_level();
                &&& final(self).queue_model(lvl) == old(self).queue_model(lvl).push(task_idx)
                &&& forall|q: int|
                    0 <= q < 5 && q != lvl ==> final(self).queue_model(q) == old(
                        self,
                    ).queue_model(q)
            }),
            final(self).ready_count == old(self).ready_count + 1,
            final(self).tasks@ == old(self).tasks@,
            final(self).current == old(self).current,
            final(self).idle_task == old(self).idle_task,
            final(self).context_switches == old(self).context_switches,
            final(self).next_pid == old(self).next_pid,
    {
        let lvl = self.tasks[task_idx].priority.level();
        let mut queue = self.run_queues.remove(lvl);
        let ghost links0 = self.run_links@;
        queue.enqueue(&mut self.run_links, task_idx);
        self.run_queues.insert(lvl, queue);
        self.ready_count = self.ready_count + 1;
        proof {
            assert(self.run_queues@ =~= old(self).run_queues@.update(lvl as int, queue));
            assert forall|q: int| 0 <= q < 5 implies (#[trigger] self.run_queues@[q]).wf(
                self.run_links@,
            ) by {
                if q != lvl {
                    lemma_queue_frame(&old(self).run_queues@[q], links0, self.run_links@,
                        task_idx, old(self).queue_model(lvl as int));
                }
            }
            assert forall|q: int, k: int|
                0 <= q < 5 && 0 <= k < self.queue_model(q).len() implies (#[trigger]
            self.queue_model(q)[k]) < self.tasks.len() && self.tasks@[self.queue_model(
                q,
            )[k] as int].priority.spec_level() == q by {
                if q == lvl {
                    if k < old(self).queue_model(q).len() {
                        assert(old(self).queue_model(q)[k] == self.queue_model(q)[k]);
                    }
                } else {
                    assert(self.queue_model(q) == old(self).queue_model(q));
                }
            }
        }
    }

    /// Pick the next task to run: the front of the highest non-empty
    /// queue, or the idle task when every queue is empty.
    pub fn pick_next(&mut self) -> (r: Option<usize>)
        requires
            old(self).wf(),
        ensures
            final(self).wf(),
            final(self).tasks@ == old(self).tasks@,
            final(self).current == old(self).current,
            ({
                let q4 = old(self).queue_model(4);
                let q3 = old(self).queue_model(3);
                let q2 = old(self).queue_model(2);
                let q1 = old(self).queue_model(1);
                let q0 = old(self).queue_model(0);
                if q4.len() > 0 {
                    r == Some(q4[0]) && final(self).queue_model(4) == q4.skip(1)
                        && final(self).ready_count == old(self).ready_count - 1
                } else if q3.len() > 0 {
                    r == Some(q3[0]) && final(self).queue_model(3) == q3.skip(1)
                        && final(self).ready_count == old(self).ready_count - 1
                } else if q2.len() > 0 {
                    r == Some(q2[0]) && final(self).queue_model(2) == q2.skip(1)
                        && final(self).ready_count == old(self).ready_count - 1
                } else if q1.len() > 0 {
                    r == Some(q1[0]) && final(self).queue_model(1) == q1.skip(1)
                        && final(self).ready_count == old(self).ready_count - 1
                } else if q0.len() > 0 {
                    r == Some(q0[0]) && final(self).queue_model(0) == q0.skip(1)
                        && final(self).ready_count == old(self).ready_count - 1
                } else {
                    r == old(self).idle_task && *final(self) == *old(self)
                }
            }),
            r matches Some(i) ==> i < old(self).tasks@.len() || (old(self).idle_task == Some(i)),
            ({
                let lvl: int = if old(self).queue_model(4).len() > 0 {
                    4
                } else if old(self).queue_model(3).len() > 0 {
                    3
                } else if old(self).queue_model(2).len() > 0 {
                    2
                } else if old(self).queue_model(1).len() > 0 {
                    1
                } else if old(self).queue_model(0).len() > 0 {
                    0
                } else {
                    -1
                };
                forall|q: int|
                    0 <= q < 5 && q != lvl ==> final(self).queue_model(q) == old(
                        self,
                    ).queue_model(q)
            }),
            final(self).idle_task == old(self).idle_task,
            final(self).context_switches == old(self).context_switches,
            final(self).next_pid == old(self).next_pid,
    {
        let mut lvl: usize = NUM_PRIORITIES;
        while lvl > 0
            invariant
                self.wf(),
                *self == *old(self),
                lvl <= NUM_PRIORITIES,
                forall|q: int| lvl <= q < 5 ==> (#[trigger] old(self).queue_model(q)).len() == 0,
            decreases lvl,
        {
            lvl -= 1;
            proof {
                crate::intrusive::lemma_queue_wf_facts(&self.run_queues@[lvl as int],
                    self.run_links@);
            }
            let qlen = {
                let queue = &self.run_queues[lvl];
                queue.len()
            };
            if qlen > 0 {
                let mut queue = self.run_queues.remove(lvl);
                let ghost links0 = self.run_links@;
                let got = queue.dequeue(&mut self.run_links);
                self.run_queues.insert(lvl, queue);
                self.ready_count = self.ready_count - 1;
                proof {
                    assert(self.run_queues@ =~= old(self).run_queues@.update(lvl as int, queue));
                    let popped = old(self).queue_model(lvl as int)[0];
                    assert forall|q: int| 0 <= q < 5 implies (#[trigger] self.run_queues@[q]).wf(
                        self.run_links@,
                    ) by {
                        if q != lvl {
                            lemma_queue_frame_pop(&old(self).run_queues@[q], links0,
                                self.run_links@, old(self).queue_model(lvl as int));
                        }
                    }
                    assert forall|q: int, k: int|
                        0 <= q < 5 && 0 <= k < self.queue_model(q).len() implies (#[trigger]
                    self.queue_model(q)[k]) < self.tasks.len() && self.tasks@[self.queue_model(
                        q,
                    )[k] as int].priority.spec_level() == q by {
                        if q == lvl {
                            assert(self.queue_model(q)[k] == old(self).queue_model(q)[k + 1]);
                        } else {
                            assert(self.queue_model(q) == old(self).queue_model(q));
                        }
                    }
                }
                return got;
            }
        }
        self.idle_task
    }

    /// Get the currently running task's index.
    pub fn current(&self) -> (r: Option<usize>)
        ensures
            r == self.current,
    {
        self.current
    }

    /// Set the current task.
    pub fn set_current(&mut self, task: Option<usize>)
        requires
            old(self).wf(),
            match task {
                Some(t) => t < old(self).tasks@.len(),
                None => true,
            },
        ensures
            final(self).wf(),
            final(self).current == task,
            final(self).tasks@ == old(self).tasks@,
            forall|q: int| 0 <= q < 5 ==> final(self).queue_model(q) == old(self).queue_model(q),
            final(self).idle_task == old(self).idle_task,
            final(self).context_switches == old(self).context_switches,
            final(self).ready_count == old(self).ready_count,
            final(self).next_pid == old(self).next_pid,
    {
        self.current = task;
    }

    /// Set the idle task.
    pub fn set_idle(&mut self, task: usize)
        requires
            old(self).wf(),
            task < old(self).tasks@.len(),
        ensures
            final(self).wf(),
            final(self).idle_task == Some(task),
            final(self).tasks@ == old(self).tasks@,
            final(self).current == old(self).current,
            forall|q: int| 0 <= q < 5 ==> final(self).queue_model(q) == old(self).queue_model(q),
    {
        self.idle_task = Some(task);
    }

    /// Get the number of ready tasks.
    pub fn ready_count(&self) -> (r: usize)
        ensures
            r == self.ready_count,
    {
        self.ready_count
    }

    /// Get total context switches.
    pub fn context_switches(&self) -> (r: u64)
        ensures
            r == self.context_switches,
    {
        self.context_switches
    }

    /// Increment the context switch counter.
    pub fn record_context_switch(&mut self)
        requires
            old(self).wf(),
            old(self).context_switches < 0xFFFFFFFFFFFFFFFF,
        ensures
            final(self).wf(),
            final(self).context_switches == old(self).context_switches + 1,
            final(self).tasks@ == old(self).tasks@,
            final(self).current == old(self).current,
            forall|q: int| 0 <= q < 5 ==> final(self).queue_model(q) == old(self).queue_model(q),
            final(self).idle_task == old(self).idle_task,
            final(self).ready_count == old(self).ready_count,
            final(self).next_pid == old(self).next_pid,
    {
        self.context_switches = self.context_switches + 1;
    }

    /// Account one timer tick to the running task: its CPU time grows,
    /// its slice shrinks, and the return value says whether the slice ran
    /// out and a reschedule is due.
    pub fn timer_tick(&mut self) -> (r: bool)
        requires
            old(self).wf(),
        ensures
            final(self).wf(),
            old(self).current is None ==> r == false && *final(self) == *old(self),
            old(self).current matches Some(c) ==> {
                let t = old(self).tasks@[c as int];
                let new_slice: u32 = if t.time_slice > 0 {
                    (t.time_slice - 1) as u32
                } else {
                    0u32
                };
                &&& final(self).tasks@[c as int].time_slice == new_slice
                &&& final(self).tasks@[c as int].cpu_time == (if t.cpu_time
                    < 0xFFFFFFFFFFFFFFFF {
                    t.cpu_time + 1
                } else {
                    t.cpu_time as int
                })
                &&& r == (new_slice == 0)
                &&& forall|i: int|
                    0 <= i < old(self).tasks@.len() && i != c ==> final(self).tasks@[i] == old(
                        self,
                    ).tasks@[i]
                &&& forall|q: int|
                    0 <= q < 5 ==> final(self).queue_model(q) == old(self).queue_model(q)
            },
    {
        let c = match self.current {
            Some(c) => c,
            None => {
                return false;
            },
        };
        let mut task = self.tasks.remove(c);
        if task.cpu_time < 0xFFFFFFFFFFFFFFFF {
            task.cpu_time = task.cpu_time + 1;
        }
        if task.time_slice > 0 {
            task.time_slice = task.time_slice - 1;
        }
        let expired = task.time_slice == 0;
        self.tasks.insert(c, task);
        proof {
            assert(self.tasks@ =~= old(self).tasks@.update(
                c as int,
                self.tasks@[c as int],
            ));
        }
        expired
    }

    /// Whether a reschedule puts the current task back in its queue: it
    /// exists and is still marked running.
    pub open spec fn spec_requeues(&self) -> bool {
        match self.current {
            Some(c) => c < self.tasks@.len() && self.tasks@[c as int].state is Running,
            None => false,
        }
    }

    /// Run queue `q` as it stands after the running task was put back,
    /// just before the pick.
    pub open spec fn mid_queue(&self, q: int) -> Seq<usize> {
        if self.spec_requeues() && self.tasks@[self.current->0 as int].priority.spec_level()
            == q {
            self.queue_model(q).push(self.current->0)
        } else {
            self.queue_model(q)
        }
    }

    /// The level a reschedule picks from: the highest non-empty queue
    /// after the re-enqueue, or -1 when all five are empty.
    pub open spec fn spec_pick_level(&self) -> int {
        if self.mid_queue(4).len() > 0 {
            4
        } else if self.mid_queue(3).len() > 0 {
            3
        } else if self.mid_queue(2).len() > 0 {
            2
        } else if self.mid_queue(1).len() > 0 {
            1
        } else if self.mid_queue(0).len() > 0 {
            0
        } else {
            -1
        }
    }

    /// The task a reschedule hands the CPU: the front of that queue, or
    /// the idle task when every queue is empty.
    pub open spec fn spec_schedule_pick(&self) -> Option<usize> {
        if self.spec_pick_level() >= 0 {
            Some(self.mid_queue(self.spec_pick_level())[0])
        } else {
            self.idle_task
        }
    }

    /// One scheduling decision, as the timer takes it: a task still
    /// marked running goes back to the tail of its queue with a fresh
    /// slice, then the front of the highest non-empty queue (or the idle
    /// task) becomes current, is marked running, and the switch is
    /// counted.  Returns the task now holding the CPU, or `None` when
    /// there is nothing to run.
    pub fn schedule(&mut self) -> (r: Option<usize>)
        requires
            old(self).wf(),
            match old(self).current {
                Some(c) => forall|q: int|
                    0 <= q < 5 ==> !(#[trigger] old(self).queue_model(q)).contains(c),
                None => true,
            },
            old(self).ready_count < 100000,
            old(self).context_switches < 0xFFFFFFFFFFFFFFFF,
        ensures
            final(self).wf(),
            r == old(self).spec_schedule_pick(),
            final(self).tasks@.len() == old(self).tasks@.len(),
            final(self).idle_task == old(self).idle_task,
            r matches Some(n) ==> {
                &&& n < old(self).tasks@.len()
                &&& final(self).current == Some(n)
                &&& final(self).tasks@[n as int].state is Running
                &&& final(self).context_switches == old(self).context_switches + 1
            },
            r is None ==> final(self).current == old(self).current
                && final(self).context_switches == old(self).context_switches,
            old(self).spec_requeues() ==> {
                let c = old(self).current->0;
                &&& final(self).tasks@[c as int].time_slice == 10
                &&& (r != Some(c) ==> final(self).tasks@[c as int].state is Ready)
            },
            forall|i: int|
                0 <= i < old(self).tasks@.len() && Some(i as usize) != old(self).current && Some(
                    i as usize,
                ) != r ==> final(self).tasks@[i] == old(self).tasks@[i],
            forall|q: int|
                0 <= q < 5 ==> final(self).queue_model(q) == (if q == old(
                    self,
                ).spec_pick_level() {
                    old(self).mid_queue(q).skip(1)
                } else {
                    old(self).mid_queue(q)
                }),
    {
        match self.current {
            Some(c) => {
                let running = match self.tasks[c].state {
                    TaskState::Running => true,
                    _ => false,
                };
                if running {
                    let mut task = self.tasks.remove(c);
                    task.state = TaskState::Ready;
                    task.time_slice = 10;
                    self.tasks.insert(c, task);
                    proof {
                        assert(self.tasks@ =~= old(self).tasks@.update(
                            c as int,
                            self.tasks@[c as int],
                        ));
                    }
                    self.enqueue(c);
                }
            },
            None => {},
        }
        proof {
            assert forall|q: int| 0 <= q < 5 implies self.queue_model(q) == old(self).mid_queue(
                q,
            ) by {}
        }
        let ghost smid = *self;
        let picked = self.pick_next();
        match picked {
            Some(n) => {
                let ghost spk = *self;
                proof {
                    assert(n < self.tasks@.len());
                }
                let mut task = self.tasks.remove(n);
                task.state = TaskState::Running;
                self.tasks.insert(n, task);
                proof {
                    assert(self.tasks@ =~= spk.tasks@.update(n as int, self.tasks@[n as int]));
                    assert forall|q: int, k: int|
                        0 <= q < 5 && 0 <= k < self.queue_model(q).len() implies (#[trigger]
                    self.queue_model(q)[k]) < self.tasks.len() && self.tasks@[self.queue_model(
                        q,
                    )[k] as int].priority.spec_level() == q by {
                        assert(self.queue_model(q) == spk.queue_model(q));
                        assert(self.tasks@[spk.queue_model(q)[k] as int].priority
                            == spk.tasks@[spk.queue_model(q)[k] as int].priority);
                    }
                    assert(self.wf());
                }
                self.set_current(Some(n));
                self.record_context_switch();
            },
            None => {},
        }
        picked
    }
}

/// Enqueueing into one queue leaves any other queue over the same pool
/// well-formed: the write touches only the pushed index and the target
/// queue's old tail, and neither is a member of the other queue.
proof fn lemma_queue_frame(
    q: &IntrusiveQueue,
    links0: Seq<IntrusiveNode>,
    links1: Seq<IntrusiveNode>,
    pushed: usize,
    target0: Seq<usize>,
)
    requires
        q.wf(links0),
        links1.len() == links0.len(),
        !q@.contains(pushed),
        forall|j: int|
            0 <= j < links0.len() && j != pushed && (target0.len() == 0 || j != target0[target0.len()
                - 1]) ==> links1[j] == links0[j],
        forall|k: int| 0 <= k < target0.len() ==> !q@.contains(#[trigger] target0[k]),
    ensures
        q.wf(links1),
{
    crate::intrusive::lemma_queue_wf_facts(q, links0);
    assert forall|k: int|
        0 <= k < q@.len() implies links1[(#[trigger] q@[k]) as int] == links0[q@[k] as int] by {
        assert(q@.contains(q@[k]));
        if target0.len() > 0 {
            assert(!q@.contains(target0[target0.len() - 1]));
        }
    }
    crate::intrusive::lemma_queue_wf_frame(q, links0, links1);
}

/// Dequeueing from one queue leaves any other queue over the same pool
/// well-formed.
proof fn lemma_queue_frame_pop(
    q: &IntrusiveQueue,
    links0: Seq<IntrusiveNode>,
    links1: Seq<IntrusiveNode>,
    target0: Seq<usize>,
)
    requires
        q.wf(links0),
        links1.len() == links0.len(),
        target0.len() > 0,
        forall|j: int|
            0 <= j < links0.len() && j != target0[0] && (target0.len() == 1 || j != target0[1])
                ==> links1[j] == links0[j],
        forall|k: int| 0 <= k < target0.len() ==> !q@.contains(#[trigger] target0[k]),
    ensures
        q.wf(links1),
{
    crate::intrusive::lemma_queue_wf_facts(q, links0);
    assert forall|k: int|
        0 <= k < q@.len() implies links1[(#[trigger] q@[k]) as int] == links0[q@[k] as int] by {
        assert(q@.contains(q@[k]));
        assert(!q@.contains(target0[0]));
        if target0.len() > 1 {
            assert(!q@.contains(target0[1]));
        }
    }
    crate::intrusive::lemma_queue_wf_frame(q, links0, links1);
}

} // verus!
