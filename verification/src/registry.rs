//! The process table, the task table and the count of live processes, kept
//! together so that tearing a task down is one step on one value.
//!
//! A process is known by its pid, a task by its task id. A process lists the
//! ids of its tasks and of its children; parents and children refer to each
//! other by pid only and are looked up in the table when needed. Whoever shares
//! a [`Registry`] between tasks guards it with a single lock: every method
//! leaves the tables consistent when it returns.

use crate::ids::{lemma_without_contains, remove_all, without};
use std::collections::HashMap;
use vstd::prelude::*;
use vstd::std_specs::hash::spec_hash_map_len;

verus! {

broadcast use vstd::std_specs::hash::group_hash_axioms;

/// The record of one process.
#[derive(Debug)]
pub struct Process {
    /// Identity of the process.
    pub pid: u64,
    /// Pid of the parent. The parent may be gone; it is looked up when needed.
    pub parent: u64,
    /// Pids of the children still registered, oldest first.
    pub children: Vec<u64>,
    /// Ids of the tasks that belong to this process, oldest first.
    pub tasks: Vec<u64>,
    /// Handle of the address space, owned by the process until it is torn down.
    pub memory_set: usize,
}

/// A process as contracts see it.
pub struct ProcessView {
    pub pid: u64,
    pub parent: u64,
    pub children: Seq<u64>,
    pub tasks: Seq<u64>,
    pub memory_set: usize,
}

impl ProcessView {
    /// The same process with another list of tasks.
    pub open spec fn with_tasks(self, tasks: Seq<u64>) -> ProcessView {
        ProcessView {
            pid: self.pid,
            parent: self.parent,
            children: self.children,
            tasks,
            memory_set: self.memory_set,
        }
    }

    /// The same process with another list of children.
    pub open spec fn with_children(self, children: Seq<u64>) -> ProcessView {
        ProcessView {
            pid: self.pid,
            parent: self.parent,
            children,
            tasks: self.tasks,
            memory_set: self.memory_set,
        }
    }

    /// A process that has neither tasks nor children yet.
    pub open spec fn fresh(pid: u64, parent: u64, memory_set: usize) -> ProcessView {
        ProcessView { pid, parent, children: Seq::empty(), tasks: Seq::empty(), memory_set }
    }
}

impl View for Process {
    type V = ProcessView;

    open spec fn view(&self) -> ProcessView {
        ProcessView {
            pid: self.pid,
            parent: self.parent,
            children: self.children@,
            tasks: self.tasks@,
            memory_set: self.memory_set,
        }
    }
}

/// The record of one task: its id and the process it belongs to.
#[derive(Clone, Copy, Debug, PartialEq, Eq)]
pub struct Task {
    pub task_id: u64,
    pub pid: u64,
}

/// What tearing a task down did.
#[derive(Clone, Copy, Debug, PartialEq, Eq)]
pub enum Teardown {
    /// No process of that pid is registered: it has been cleaned up before.
    Missing,
    /// The task left and its process lives on.
    TaskExited,
    /// The last task left and the process went with it. `memory_set` is the
    /// address space to release, `remaining` the number of processes still
    /// alive.
    ProcessExited { memory_set: usize, remaining: usize },
}

impl Teardown {
    /// True when the teardown removed the last live process.
    pub open spec fn spec_all_finished(self) -> bool {
        self matches Teardown::ProcessExited { remaining, .. } && remaining == 0
    }

    /// Tells whether the teardown removed the last live process, that is,
    /// whether no application work remains.
    #[verifier::when_used_as_spec(spec_all_finished)]
    pub fn all_finished(self) -> (b: bool)
        ensures
            b == self.spec_all_finished(),
    {
        match self {
            Teardown::ProcessExited { remaining, .. } => remaining == 0,
            _ => false,
        }
    }
}

/// The two tables and the counter as contracts see them.
pub struct RegistryView {
    /// The process table.
    pub processes: Map<u64, ProcessView>,
    /// The task table: task id to the pid of the owning process.
    pub tasks: Map<u64, u64>,
    /// The count of live processes.
    pub live: nat,
}

impl RegistryView {
    /// No process, no task.
    pub open spec fn empty() -> RegistryView {
        RegistryView { processes: Map::empty(), tasks: Map::empty(), live: 0 }
    }

    /// The tables agree with each other:
    /// the counter is the size of the process table;
    /// a record is filed under its own pid;
    /// a child listed by a process is registered and names that process as parent;
    /// a registered task has a registered owner that lists it.
    pub open spec fn wf(self) -> bool {
        &&& self.processes.dom().finite()
        &&& self.live == self.processes.len()
        &&& forall|p: u64| #[trigger]
            self.processes.contains_key(p) ==> self.processes[p].pid == p
        &&& forall|q: u64, c: u64|
            self.processes.contains_key(q) && #[trigger] self.processes[q].children.contains(c)
                ==> self.processes.contains_key(c) && self.processes[c].parent == q
        &&& forall|t: u64| #[trigger]
            self.tasks.contains_key(t) ==> self.processes.contains_key(self.tasks[t])
                && self.processes[self.tasks[t]].tasks.contains(t)
    }

    /// Every task that a process lists is registered as a task of that process.
    /// Together with [`Self::wf`] this makes a task id registered exactly when
    /// one process lists it.
    pub open spec fn tasks_registered(self) -> bool {
        forall|p: u64, t: u64|
            self.processes.contains_key(p) && #[trigger] self.processes[p].tasks.contains(t)
                ==> self.tasks.contains_key(t) && self.tasks[t] == p
    }

    /// Task `task_id` is not registered under a process other than `pid`.
    pub open spec fn owned_or_unknown(self, pid: u64, task_id: u64) -> bool {
        self.tasks.contains_key(task_id) ==> self.tasks[task_id] == pid
    }

    /// The registry after a process `pid` without tasks is added as a child of
    /// `parent`. A parent that is not registered gets no entry.
    pub open spec fn with_process(self, pid: u64, parent: u64, memory_set: usize) -> RegistryView {
        let linked = if self.processes.contains_key(parent) {
            let par = self.processes[parent];
            self.processes.insert(parent, par.with_children(par.children.push(pid)))
        } else {
            self.processes
        };
        RegistryView {
            processes: linked.insert(pid, ProcessView::fresh(pid, parent, memory_set)),
            tasks: self.tasks,
            live: self.live + 1,
        }
    }

    /// The registry after task `task_id` is added to process `pid`.
    pub open spec fn with_task(self, pid: u64, task_id: u64) -> RegistryView {
        let p = self.processes[pid];
        RegistryView {
            processes: self.processes.insert(pid, p.with_tasks(p.tasks.push(task_id))),
            tasks: self.tasks.insert(task_id, pid),
            live: self.live,
        }
    }

    /// The process table after process `pid` is removed: its record is gone,
    /// and its pid has left the children of its parent, if the parent is
    /// registered.
    pub open spec fn unlinked(self, pid: u64) -> Map<u64, ProcessView> {
        let rest = self.processes.remove(pid);
        let parent = self.processes[pid].parent;
        if rest.contains_key(parent) {
            rest.insert(parent, rest[parent].with_children(without(rest[parent].children, pid)))
        } else {
            rest
        }
    }

    /// The registry after task `task_id` of process `pid` has exited.
    ///
    /// The task id leaves the task list of the process and the task table. If
    /// the task list is then empty the process is removed as well, from the
    /// table and from the children of its parent, and the counter goes down by
    /// one. Where no process `pid` is registered only the task table changes.
    pub open spec fn after_exit(self, pid: u64, task_id: u64) -> RegistryView {
        let tasks = self.tasks.remove(task_id);
        if !self.processes.contains_key(pid) {
            RegistryView { processes: self.processes, tasks, live: self.live }
        } else {
            let p = self.processes[pid];
            let left = without(p.tasks, task_id);
            if left.len() > 0 {
                RegistryView {
                    processes: self.processes.insert(pid, p.with_tasks(left)),
                    tasks,
                    live: self.live,
                }
            } else {
                RegistryView {
                    processes: self.unlinked(pid),
                    tasks,
                    live: if self.live > 0 {
                        (self.live - 1) as nat
                    } else {
                        0
                    },
                }
            }
        }
    }

    /// What [`Self::after_exit`] reports of the same exit.
    pub open spec fn exit_outcome(self, pid: u64, task_id: u64) -> Teardown {
        if !self.processes.contains_key(pid) {
            Teardown::Missing
        } else if without(self.processes[pid].tasks, task_id).len() > 0 {
            Teardown::TaskExited
        } else {
            Teardown::ProcessExited {
                memory_set: self.processes[pid].memory_set,
                remaining: self.after_exit(pid, task_id).live as usize,
            }
        }
    }
}

/// The view of each record of a process table.
pub open spec fn process_views(m: Map<u64, Process>) -> Map<u64, ProcessView> {
    m.map_values(|p: Process| p@)
}

/// The process table, the task table and the count of live processes.
pub struct Registry {
    processes: HashMap<u64, Process>,
    tasks: HashMap<u64, u64>,
    live: usize,
}

impl View for Registry {
    type V = RegistryView;

    closed spec fn view(&self) -> RegistryView {
        RegistryView {
            processes: process_views(self.processes@),
            tasks: self.tasks@,
            live: self.live as nat,
        }
    }
}

impl Registry {
    /// A registry without processes or tasks.
    pub fn new() -> (r: Registry)
        ensures
            r@ == RegistryView::empty(),
            r@.wf(),
            r@.tasks_registered(),
    {
        let r = Registry { processes: HashMap::new(), tasks: HashMap::new(), live: 0 };
        proof {
            assert(process_views(r.processes@) =~= Map::empty());
        }
        r
    }

    /// The count of live processes.
    pub fn process_count(&self) -> (n: usize)
        ensures
            n == self@.live,
    {
        self.live
    }

    /// Looks a process up by pid.
    pub fn lookup_process(&self, pid: u64) -> (found: Option<&Process>)
        ensures
            found is Some <==> self@.processes.contains_key(pid),
            found is Some ==> found.unwrap()@ == self@.processes[pid],
    {
        self.processes.get(&pid)
    }

    /// Looks a task up by task id.
    pub fn lookup_task(&self, task_id: u64) -> (found: Option<Task>)
        ensures
            found is Some <==> self@.tasks.contains_key(task_id),
            found is Some ==> found.unwrap() == (Task { task_id, pid: self@.tasks[task_id] }),
    {
        match self.tasks.get(&task_id) {
            Some(pid) => Some(Task { task_id, pid: *pid }),
            None => None,
        }
    }

    /// Registers a process without tasks as a child of `parent`.
    ///
    /// Returns false and changes nothing where `pid` is registered already.
    /// A parent that is not registered is tolerated: the process then starts
    /// out as an orphan.
    pub fn insert_process(&mut self, pid: u64, parent: u64, memory_set: usize) -> (ok: bool)
        requires
            old(self)@.wf(),
        ensures
            ok == !old(self)@.processes.contains_key(pid),
            final(self)@ == if ok {
                old(self)@.with_process(pid, parent, memory_set)
            } else {
                old(self)@
            },
            final(self)@.wf(),
            old(self)@.tasks_registered() ==> final(self)@.tasks_registered(),
    {
        if self.processes.contains_key(&pid) {
            return false;
        }
        let ghost before = self@;
        match self.processes.remove(&parent) {
            Some(mut par) => {
                par.children.push(pid);
                self.processes.insert(parent, par);
            },
            None => {},
        }
        let record = Process { pid, parent, children: Vec::new(), tasks: Vec::new(), memory_set };
        self.processes.insert(pid, record);
        proof {
            let goal = before.with_process(pid, parent, memory_set);
            lemma_with_process_wf(before, pid, parent, memory_set);
            assert(process_views(self.processes@) =~= goal.processes);
            assert(self.processes@.dom() =~= goal.processes.dom());
            assert(spec_hash_map_len(&self.processes) == self.processes@.len());
        }
        self.live = self.live + 1;
        true
    }

    /// Registers task `task_id` as the youngest task of process `pid`.
    ///
    /// Returns false and changes nothing where the process is not registered
    /// or the task id is registered already.
    pub fn insert_task(&mut self, pid: u64, task_id: u64) -> (ok: bool)
        requires
            old(self)@.wf(),
        ensures
            ok == (old(self)@.processes.contains_key(pid) && !old(self)@.tasks.contains_key(
                task_id,
            )),
            final(self)@ == if ok {
                old(self)@.with_task(pid, task_id)
            } else {
                old(self)@
            },
            final(self)@.wf(),
            old(self)@.tasks_registered() ==> final(self)@.tasks_registered(),
    {
        if self.tasks.contains_key(&task_id) {
            return false;
        }
        let ghost before = self@;
        match self.processes.remove(&pid) {
            Some(mut p) => {
                p.tasks.push(task_id);
                self.processes.insert(pid, p);
                self.tasks.insert(task_id, pid);
            },
            None => {
                proof {
                    assert(process_views(self.processes@) =~= before.processes);
                }
                return false;
            },
        }
        proof {
            lemma_with_task_wf(before, pid, task_id);
            assert(process_views(self.processes@) =~= before.with_task(pid, task_id).processes);
        }
        true
    }

    /// Tears down task `task_id` of process `pid`.
    ///
    /// The task id leaves the task list of the process. If that leaves the
    /// list empty, the pid leaves the children of its parent (a parent that is
    /// not registered is passed over), the process leaves the process table
    /// and the counter goes down by one. Last, the task id leaves the task
    /// table. Where no process `pid` is registered that last step is all that
    /// happens, so tearing the same task down again changes nothing.
    pub fn teardown(&mut self, pid: u64, task_id: u64) -> (out: Teardown)
        requires
            old(self)@.wf(),
        ensures
            final(self)@ == old(self)@.after_exit(pid, task_id),
            out == old(self)@.exit_outcome(pid, task_id),
            final(self)@.wf(),
            old(self)@.tasks_registered() && old(self)@.owned_or_unknown(pid, task_id)
                ==> final(self)@.tasks_registered(),
    {
        let ghost before = self@;
        let out = match self.processes.remove(&pid) {
            Some(mut p) => {
                remove_all(&mut p.tasks, task_id);
                if p.tasks.len() > 0 {
                    self.processes.insert(pid, p);
                    Teardown::TaskExited
                } else {
                    let parent = p.parent;
                    match self.processes.remove(&parent) {
                        Some(mut par) => {
                            remove_all(&mut par.children, pid);
                            self.processes.insert(parent, par);
                        },
                        None => {},
                    }
                    proof {
                        assert(self.processes@.dom() =~= before.processes.dom().remove(pid));
                    }
                    self.live = self.live - 1;
                    Teardown::ProcessExited { memory_set: p.memory_set, remaining: self.live }
                }
            },
            None => Teardown::Missing,
        };
        self.tasks.remove(&task_id);
        proof {
            assert(process_views(self.processes@) =~= before.after_exit(pid, task_id).processes);
            lemma_after_exit_wf(before, pid, task_id);
            if before.tasks_registered() && before.owned_or_unknown(pid, task_id) {
                lemma_after_exit_tasks_registered(before, pid, task_id);
            }
        }
        out
    }
}

/// Adding a process under a pid that is free leaves the tables in agreement.
pub proof fn lemma_with_process_wf(r: RegistryView, pid: u64, parent: u64, memory_set: usize)
    requires
        r.wf(),
        !r.processes.contains_key(pid),
    ensures
        r.with_process(pid, parent, memory_set).wf(),
        r.tasks_registered() ==> r.with_process(pid, parent, memory_set).tasks_registered(),
{
    let goal = r.with_process(pid, parent, memory_set);
    assert(goal.processes.dom() =~= r.processes.dom().insert(pid));
    assert forall|q: u64, c: u64|
        goal.processes.contains_key(q) && #[trigger] goal.processes[q].children.contains(
            c,
        ) implies goal.processes.contains_key(c) && goal.processes[c].parent == q by {
        if q == parent && r.processes.contains_key(parent) && q != pid {
            let listed = r.processes[parent].children;
            let i = choose|i: int| 0 <= i < listed.push(pid).len() && listed.push(pid)[i] == c;
            if i < listed.len() {
                assert(listed[i] == c);
                assert(listed.contains(c));
            }
        } else if q != pid {
            assert(r.processes[q].children.contains(c));
        }
    }
    assert forall|t: u64| #[trigger]
        goal.tasks.contains_key(t) implies goal.processes.contains_key(goal.tasks[t])
        && goal.processes[goal.tasks[t]].tasks.contains(t) by {
        assert(r.tasks.contains_key(t));
    }
    if r.tasks_registered() {
        assert forall|p: u64, t: u64|
            goal.processes.contains_key(p) && #[trigger] goal.processes[p].tasks.contains(
                t,
            ) implies goal.tasks.contains_key(t) && goal.tasks[t] == p by {
            if p != pid {
                assert(r.processes[p].tasks.contains(t));
            }
        }
    }
}

/// Adding an unregistered task to a registered process leaves the tables in
/// agreement.
pub proof fn lemma_with_task_wf(r: RegistryView, pid: u64, task_id: u64)
    requires
        r.wf(),
        r.processes.contains_key(pid),
        !r.tasks.contains_key(task_id),
    ensures
        r.with_task(pid, task_id).wf(),
        r.tasks_registered() ==> r.with_task(pid, task_id).tasks_registered(),
{
    let goal = r.with_task(pid, task_id);
    let listed = r.processes[pid].tasks;
    let grown = listed.push(task_id);
    assert(goal.processes.dom() =~= r.processes.dom());
    assert forall|q: u64, c: u64|
        goal.processes.contains_key(q) && #[trigger] goal.processes[q].children.contains(
            c,
        ) implies goal.processes.contains_key(c) && goal.processes[c].parent == q by {
        assert(r.processes[q].children.contains(c));
    }
    assert(grown[grown.len() - 1] == task_id);
    assert forall|t: u64| #[trigger]
        goal.tasks.contains_key(t) implies goal.processes.contains_key(goal.tasks[t])
        && goal.processes[goal.tasks[t]].tasks.contains(t) by {
        if t != task_id && r.tasks[t] == pid {
            let i = choose|i: int| 0 <= i < listed.len() && listed[i] == t;
            assert(grown[i] == t);
        }
    }
    if r.tasks_registered() {
        assert forall|p: u64, t: u64|
            goal.processes.contains_key(p) && #[trigger] goal.processes[p].tasks.contains(
                t,
            ) implies goal.tasks.contains_key(t) && goal.tasks[t] == p by {
            if p == pid {
                let i = choose|i: int| 0 <= i < grown.len() && grown[i] == t;
                if i < grown.len() - 1 {
                    assert(listed[i] == t);
                    assert(listed.contains(t));
                }
            } else {
                assert(r.processes[p].tasks.contains(t));
            }
        }
    }
}

/// An exit leaves the tables in agreement.
pub proof fn lemma_after_exit_wf(r: RegistryView, pid: u64, task_id: u64)
    requires
        r.wf(),
    ensures
        r.after_exit(pid, task_id).wf(),
{
    let after = r.after_exit(pid, task_id);
    if r.processes.contains_key(pid) {
        let p = r.processes[pid];
        let left = without(p.tasks, task_id);
        if left.len() > 0 {
            assert(after.processes.dom() =~= r.processes.dom());
            assert forall|q: u64, c: u64|
                after.processes.contains_key(q) && #[trigger] after.processes[q].children.contains(
                    c,
                ) implies after.processes.contains_key(c) && after.processes[c].parent == q by {
                assert(r.processes[q].children.contains(c));
            }
            assert forall|t: u64| #[trigger]
                after.tasks.contains_key(t) implies after.processes.contains_key(after.tasks[t])
                && after.processes[after.tasks[t]].tasks.contains(t) by {
                assert(r.tasks.contains_key(t));
                if r.tasks[t] == pid {
                    lemma_without_contains(p.tasks, task_id, t);
                }
            }
        } else {
            let rest = r.processes.remove(pid);
            assert(after.processes.dom() =~= r.processes.dom().remove(pid));
            assert forall|q: u64, c: u64|
                after.processes.contains_key(q) && #[trigger] after.processes[q].children.contains(
                    c,
                ) implies after.processes.contains_key(c) && after.processes[c].parent == q by {
                if q == p.parent {
                    lemma_without_contains(r.processes[q].children, pid, c);
                }
                assert(r.processes[q].children.contains(c));
            }
            assert forall|t: u64| #[trigger]
                after.tasks.contains_key(t) implies after.processes.contains_key(after.tasks[t])
                && after.processes[after.tasks[t]].tasks.contains(t) by {
                assert(r.tasks.contains_key(t));
                if r.tasks[t] == pid {
                    lemma_without_contains(p.tasks, task_id, t);
                    assert(left.contains(t));
                }
            }
        }
    } else {
        assert forall|t: u64| #[trigger]
            after.tasks.contains_key(t) implies after.processes.contains_key(after.tasks[t])
            && after.processes[after.tasks[t]].tasks.contains(t) by {
            assert(r.tasks.contains_key(t));
        }
    }
}

/// An exit keeps every listed task registered, provided the exiting task is
/// not registered under another process.
pub proof fn lemma_after_exit_tasks_registered(r: RegistryView, pid: u64, task_id: u64)
    requires
        r.wf(),
        r.tasks_registered(),
        r.owned_or_unknown(pid, task_id),
    ensures
        r.after_exit(pid, task_id).tasks_registered(),
{
    let after = r.after_exit(pid, task_id);
    assert forall|q: u64, t: u64|
        after.processes.contains_key(q) && #[trigger] after.processes[q].tasks.contains(
            t,
        ) implies after.tasks.contains_key(t) && after.tasks[t] == q by {
        if q == pid {
            lemma_without_contains(r.processes[pid].tasks, task_id, t);
        }
        assert(r.processes[q].tasks.contains(t));
    }
}

} // verus!
