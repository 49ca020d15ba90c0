//! Histories of a registry: what holds after any sequence of process
//! creations, task creations and task exits.

use crate::ids::{lemma_without_absent, lemma_without_contains, without};
use crate::registry::{
    lemma_after_exit_tasks_registered, lemma_after_exit_wf, lemma_with_process_wf,
    lemma_with_task_wf, Registry, RegistryView, Teardown,
};
use vstd::prelude::*;

verus! {

/// One thing that happens to a registry.
#[derive(Clone, Copy, Debug, PartialEq, Eq)]
pub enum Event {
    /// A process without tasks is registered as a child of `parent`.
    ProcessCreated { pid: u64, parent: u64, memory_set: usize },
    /// A task is registered with process `pid`.
    TaskCreated { pid: u64, task_id: u64 },
    /// A task of process `pid` finishes and is torn down.
    TaskExited { pid: u64, task_id: u64 },
}

impl RegistryView {
    /// The registry after one event. A creation that cannot be carried out (the
    /// pid or task id is taken, or the process is unknown) changes nothing.
    pub open spec fn step(self, event: Event) -> RegistryView {
        match event {
            Event::ProcessCreated { pid, parent, memory_set } => {
                if self.processes.contains_key(pid) {
                    self
                } else {
                    self.with_process(pid, parent, memory_set)
                }
            },
            Event::TaskCreated { pid, task_id } => {
                if self.processes.contains_key(pid) && !self.tasks.contains_key(task_id) {
                    self.with_task(pid, task_id)
                } else {
                    self
                }
            },
            Event::TaskExited { pid, task_id } => self.after_exit(pid, task_id),
        }
    }

    /// The registry after a sequence of events, first to last.
    pub open spec fn run(self, events: Seq<Event>) -> RegistryView
        decreases events.len(),
    {
        if events.len() == 0 {
            self
        } else {
            self.run(events.drop_last()).step(events.last())
        }
    }

    /// No process lists `pid` among its children.
    pub open spec fn nobodys_child(self, pid: u64) -> bool {
        forall|q: u64| #[trigger]
            self.processes.contains_key(q) ==> !self.processes[q].children.contains(pid)
    }
}

impl Registry {
    /// Carries out one event. Reports what the teardown did where the event
    /// is an exit, and nothing otherwise.
    pub fn apply(&mut self, event: Event) -> (out: Option<Teardown>)
        requires
            old(self)@.wf(),
        ensures
            final(self)@ == old(self)@.step(event),
            final(self)@.wf(),
            out == match event {
                Event::TaskExited { pid, task_id } => Some(old(self)@.exit_outcome(pid, task_id)),
                _ => None,
            },
    {
        match event {
            Event::ProcessCreated { pid, parent, memory_set } => {
                self.insert_process(pid, parent, memory_set);
                None
            },
            Event::TaskCreated { pid, task_id } => {
                self.insert_task(pid, task_id);
                None
            },
            Event::TaskExited { pid, task_id } => Some(self.teardown(pid, task_id)),
        }
    }
}

/// The exits of the tasks `order` of process `pid`, in that order.
pub open spec fn exits(pid: u64, order: Seq<u64>) -> Seq<Event> {
    Seq::new(order.len(), |i: int| Event::TaskExited { pid, task_id: order[i] })
}

/// The creations of the tasks `ids` in process `pid`, in that order.
pub open spec fn spawns(pid: u64, ids: Seq<u64>) -> Seq<Event> {
    Seq::new(ids.len(), |i: int| Event::TaskCreated { pid, task_id: ids[i] })
}

/// `s` with every occurrence of every member of `xs` taken out.
pub open spec fn without_all(s: Seq<u64>, xs: Seq<u64>) -> Seq<u64>
    decreases xs.len(),
{
    if xs.len() == 0 {
        s
    } else {
        without(without_all(s, xs.drop_last()), xs.last())
    }
}

/// One event leaves the tables in agreement.
pub proof fn lemma_step_wf(r: RegistryView, event: Event)
    requires
        r.wf(),
    ensures
        r.step(event).wf(),
{
    match event {
        Event::ProcessCreated { pid, parent, memory_set } => {
            if !r.processes.contains_key(pid) {
                lemma_with_process_wf(r, pid, parent, memory_set);
            }
        },
        Event::TaskCreated { pid, task_id } => {
            if r.processes.contains_key(pid) && !r.tasks.contains_key(task_id) {
                lemma_with_task_wf(r, pid, task_id);
            }
        },
        Event::TaskExited { pid, task_id } => {
            lemma_after_exit_wf(r, pid, task_id);
        },
    }
}

/// Whatever happens to a registry whose tables agree, in whatever order, its
/// tables agree afterwards.
pub proof fn law_history_keeps_tables_in_agreement(r: RegistryView, events: Seq<Event>)
    requires
        r.wf(),
    ensures
        r.run(events).wf(),
    decreases events.len(),
{
    if events.len() > 0 {
        law_history_keeps_tables_in_agreement(r, events.drop_last());
        lemma_step_wf(r.run(events.drop_last()), events.last());
    }
}

/// After any history, a task id found in the task table belongs to a process
/// that is found in the process table, and that process lists the task.
pub proof fn law_registered_task_has_registered_owner(
    r: RegistryView,
    events: Seq<Event>,
    task_id: u64,
)
    requires
        r.wf(),
        r.run(events).tasks.contains_key(task_id),
    ensures
        r.run(events).processes.contains_key(r.run(events).tasks[task_id]),
        r.run(events).processes[r.run(events).tasks[task_id]].tasks.contains(task_id),
{
    law_history_keeps_tables_in_agreement(r, events);
}

/// True when every exit in the history is the exit of a task that, at that
/// moment, is not registered under another process than the one named.
pub open spec fn exits_name_the_owner(r: RegistryView, events: Seq<Event>) -> bool
    decreases events.len(),
{
    if events.len() == 0 {
        true
    } else {
        exits_name_the_owner(r, events.drop_last()) && match events.last() {
            Event::TaskExited { pid, task_id } => r.run(events.drop_last()).owned_or_unknown(
                pid,
                task_id,
            ),
            _ => true,
        }
    }
}

/// A task id is in the task table exactly when one process lists it, and
/// that process is its registered owner: this holds after every history in
/// which each exit names the owner of the task, if it held before.
pub proof fn law_task_is_registered_iff_listed_once(r: RegistryView, events: Seq<Event>)
    requires
        r.wf(),
        r.tasks_registered(),
        exits_name_the_owner(r, events),
    ensures
        r.run(events).wf(),
        r.run(events).tasks_registered(),
        forall|t: u64| #[trigger]
            r.run(events).tasks.contains_key(t) <==> exists|p: u64|
                r.run(events).processes.contains_key(p) && #[trigger] r.run(
                    events,
                ).processes[p].tasks.contains(t),
        forall|p: u64, q: u64, t: u64|
            r.run(events).processes.contains_key(p) && r.run(events).processes.contains_key(q)
                && #[trigger] r.run(events).processes[p].tasks.contains(t) && #[trigger] r.run(
                events,
            ).processes[q].tasks.contains(t) ==> p == q,
    decreases events.len(),
{
    if events.len() > 0 {
        let front = events.drop_last();
        law_task_is_registered_iff_listed_once(r, front);
        let before = r.run(front);
        match events.last() {
            Event::ProcessCreated { pid, parent, memory_set } => {
                if !before.processes.contains_key(pid) {
                    lemma_with_process_wf(before, pid, parent, memory_set);
                }
            },
            Event::TaskCreated { pid, task_id } => {
                if before.processes.contains_key(pid) && !before.tasks.contains_key(task_id) {
                    lemma_with_task_wf(before, pid, task_id);
                }
            },
            Event::TaskExited { pid, task_id } => {
                lemma_after_exit_wf(before, pid, task_id);
                lemma_after_exit_tasks_registered(before, pid, task_id);
            },
        }
    }
    let after = r.run(events);
    assert forall|t: u64| #[trigger] after.tasks.contains_key(t) implies exists|p: u64|
        after.processes.contains_key(p) && #[trigger] after.processes[p].tasks.contains(t) by {
        assert(after.processes[after.tasks[t]].tasks.contains(t));
    }
}

/// When the exit that ends a history takes the last task of a process away,
/// the process is in the process table no more, and no process lists it as a
/// child: neither its former parent nor any other.
pub proof fn law_process_without_tasks_is_gone(
    r: RegistryView,
    events: Seq<Event>,
    pid: u64,
    task_id: u64,
)
    requires
        r.wf(),
        events.len() > 0,
        events.last() == (Event::TaskExited { pid, task_id }),
        ({
            let before = r.run(events.drop_last());
            before.processes.contains_key(pid) ==> forall|t: u64| #[trigger]
                before.processes[pid].tasks.contains(t) ==> t == task_id
        }),
    ensures
        !r.run(events).processes.contains_key(pid),
        r.run(events).nobodys_child(pid),
{
    let before = r.run(events.drop_last());
    let after = r.run(events);
    law_history_keeps_tables_in_agreement(r, events.drop_last());
    law_history_keeps_tables_in_agreement(r, events);
    if before.processes.contains_key(pid) {
        let left = without(before.processes[pid].tasks, task_id);
        if left.len() > 0 {
            lemma_without_contains(before.processes[pid].tasks, task_id, left[0]);
        }
    }
    assert forall|q: u64| #[trigger] after.processes.contains_key(q) implies !after.processes[q]
        .children.contains(pid) by {}
}

/// A process that is still registered after one of its tasks has exited has
/// a task left: no process outlives its last task.
pub proof fn law_process_after_exit_has_tasks(
    r: RegistryView,
    events: Seq<Event>,
    pid: u64,
    task_id: u64,
)
    requires
        events.len() > 0,
        events.last() == (Event::TaskExited { pid, task_id }),
        r.run(events).processes.contains_key(pid),
    ensures
        r.run(events).processes[pid].tasks.len() > 0,
        !r.run(events).processes[pid].tasks.contains(task_id),
{
    let before = r.run(events.drop_last());
    if before.processes.contains_key(pid) {
        lemma_without_contains(before.processes[pid].tasks, task_id, task_id);
    }
}

/// Tearing the same task down a second time changes nothing, and never
/// reports that a process went away.
pub proof fn law_second_teardown_changes_nothing(r: RegistryView, pid: u64, task_id: u64)
    ensures
        r.after_exit(pid, task_id).after_exit(pid, task_id) == r.after_exit(pid, task_id),
        !(r.after_exit(pid, task_id).exit_outcome(pid, task_id) is ProcessExited),
{
    let once = r.after_exit(pid, task_id);
    let twice = once.after_exit(pid, task_id);
    assert(once.tasks.remove(task_id) =~= once.tasks);
    if r.processes.contains_key(pid) {
        let listed = r.processes[pid].tasks;
        let left = without(listed, task_id);
        if left.len() > 0 {
            assert(!left.contains(task_id)) by {
                lemma_without_contains(listed, task_id, task_id);
            }
            lemma_without_absent(left, task_id);
            assert(twice.processes =~= once.processes);
        } else {
            assert(!once.processes.contains_key(pid));
        }
    }
}

/// Removing the members of `xs` leaves what was there and is not in `xs`.
pub proof fn lemma_without_all_contains(s: Seq<u64>, xs: Seq<u64>, y: u64)
    ensures
        without_all(s, xs).contains(y) <==> s.contains(y) && !xs.contains(y),
    decreases xs.len(),
{
    if xs.len() > 0 {
        let front = xs.drop_last();
        lemma_without_all_contains(s, front, y);
        lemma_without_contains(without_all(s, front), xs.last(), y);
        if xs.contains(y) {
            let i = choose|i: int| 0 <= i < xs.len() && xs[i] == y;
            if i < front.len() {
                assert(front[i] == y);
            }
        }
        if front.contains(y) {
            let i = choose|i: int| 0 <= i < front.len() && front[i] == y;
            assert(xs[i] == y);
        }
        if xs.last() == y {
            assert(xs[xs.len() - 1] == y);
        }
    }
}

/// Removing `x` from two lists joined gives what removing it from each
/// leaves, joined.
proof fn lemma_without_concat(a: Seq<u64>, b: Seq<u64>, x: u64)
    ensures
        without(a + b, x) == without(a, x) + without(b, x),
    decreases b.len(),
{
    if b.len() == 0 {
        assert(a + b =~= a);
        assert(without(a, x) + without(b, x) =~= without(a, x));
    } else {
        let front = b.drop_last();
        assert((a + b).drop_last() =~= a + front);
        assert((a + b).last() == b.last());
        lemma_without_concat(a, front, x);
        if b.last() != x {
            assert((without(a, x) + without(front, x)).push(b.last()) =~= without(a, x) + without(
                front,
                x,
            ).push(b.last()));
        }
    }
}

/// Removing the members of `xs` from two lists joined gives what removing
/// them from each leaves, joined.
proof fn lemma_without_all_concat(a: Seq<u64>, b: Seq<u64>, xs: Seq<u64>)
    ensures
        without_all(a + b, xs) == without_all(a, xs) + without_all(b, xs),
    decreases xs.len(),
{
    if xs.len() > 0 {
        lemma_without_all_concat(a, b, xs.drop_last());
        lemma_without_concat(
            without_all(a, xs.drop_last()),
            without_all(b, xs.drop_last()),
            xs.last(),
        );
    }
}

/// Removing identifiers of which none occurs changes nothing.
proof fn lemma_without_all_disjoint(a: Seq<u64>, xs: Seq<u64>)
    requires
        forall|i: int| 0 <= i < xs.len() ==> !a.contains(#[trigger] xs[i]),
    ensures
        without_all(a, xs) == a,
    decreases xs.len(),
{
    if xs.len() > 0 {
        let front = xs.drop_last();
        assert forall|i: int| 0 <= i < front.len() implies !a.contains(#[trigger] front[i]) by {
            assert(front[i] == xs[i]);
        }
        lemma_without_all_disjoint(a, front);
        assert(!a.contains(xs[xs.len() - 1]));
        lemma_without_absent(a, xs.last());
    }
}

/// Removing identifiers among which every entry is found leaves nothing.
proof fn lemma_without_all_covered(b: Seq<u64>, xs: Seq<u64>)
    requires
        forall|i: int| 0 <= i < b.len() ==> xs.contains(#[trigger] b[i]),
    ensures
        without_all(b, xs) == Seq::<u64>::empty(),
{
    let left = without_all(b, xs);
    if left.len() > 0 {
        assert(left.contains(left[0]));
        lemma_without_all_contains(b, xs, left[0]);
        let i = choose|i: int| 0 <= i < b.len() && b[i] == left[0];
        assert(xs.contains(b[i]));
    }
    assert(left =~= Seq::<u64>::empty());
}

/// The registry after the tasks `ids`, none of them registered and no two the
/// same, were created in the registered process `pid`.
proof fn lemma_run_spawns(r: RegistryView, pid: u64, ids: Seq<u64>)
    requires
        r.processes.contains_key(pid),
        ids.no_duplicates(),
        forall|i: int| 0 <= i < ids.len() ==> !r.tasks.contains_key(#[trigger] ids[i]),
    ensures
        r.run(spawns(pid, ids)).live == r.live,
        r.run(spawns(pid, ids)).processes == r.processes.insert(
            pid,
            r.processes[pid].with_tasks(r.processes[pid].tasks + ids),
        ),
        r.run(spawns(pid, ids)).tasks == Map::new(
            |t: u64| r.tasks.contains_key(t) || ids.contains(t),
            |t: u64|
                if ids.contains(t) {
                    pid
                } else {
                    r.tasks[t]
                },
        ),
    decreases ids.len(),
{
    let p = r.processes[pid];
    let after = r.run(spawns(pid, ids));
    let tasks = Map::new(
        |t: u64| r.tasks.contains_key(t) || ids.contains(t),
        |t: u64|
            if ids.contains(t) {
                pid
            } else {
                r.tasks[t]
            },
    );
    if ids.len() == 0 {
        assert(p.tasks + ids =~= p.tasks);
        assert(r.processes.insert(pid, p.with_tasks(p.tasks + ids)) =~= r.processes);
        assert(tasks =~= r.tasks);
    } else {
        let front = ids.drop_last();
        let last = ids.last();
        assert(spawns(pid, ids).drop_last() =~= spawns(pid, front));
        assert(spawns(pid, ids).last() == (Event::TaskCreated { pid, task_id: last }));
        assert forall|i: int| 0 <= i < front.len() implies !r.tasks.contains_key(
            #[trigger] front[i],
        ) by {
            assert(front[i] == ids[i]);
        }
        lemma_run_spawns(r, pid, front);
        let mid = r.run(spawns(pid, front));
        assert(!front.contains(last)) by {
            if front.contains(last) {
                let i = choose|i: int| 0 <= i < front.len() && front[i] == last;
                assert(ids[i] == ids[ids.len() - 1]);
            }
        }
        assert(!r.tasks.contains_key(ids[ids.len() - 1]));
        assert(!mid.tasks.contains_key(last));
        assert(after == mid.with_task(pid, last));
        assert((p.tasks + front).push(last) =~= p.tasks + ids);
        assert(after.processes =~= r.processes.insert(pid, p.with_tasks(p.tasks + ids)));
        assert forall|t: u64| ids.contains(t) <==> front.contains(t) || t == last by {
            if ids.contains(t) {
                let i = choose|i: int| 0 <= i < ids.len() && ids[i] == t;
                if i < front.len() {
                    assert(front[i] == t);
                }
            }
            if front.contains(t) {
                let i = choose|i: int| 0 <= i < front.len() && front[i] == t;
                assert(ids[i] == t);
            }
            assert(ids[ids.len() - 1] == last);
        }
        assert(after.tasks =~= tasks);
    }
}

/// The registry after the tasks `order` of the registered process `pid` have
/// exited, where the process has a task that is not among them.
proof fn lemma_run_exits(r: RegistryView, pid: u64, order: Seq<u64>, survivor: u64)
    requires
        r.processes.contains_key(pid),
        r.processes[pid].tasks.contains(survivor),
        !order.contains(survivor),
    ensures
        r.run(exits(pid, order)).live == r.live,
        r.run(exits(pid, order)).processes == r.processes.insert(
            pid,
            r.processes[pid].with_tasks(without_all(r.processes[pid].tasks, order)),
        ),
        r.run(exits(pid, order)).tasks == r.tasks.remove_keys(order.to_set()),
    decreases order.len(),
{
    let p = r.processes[pid];
    let after = r.run(exits(pid, order));
    if order.len() == 0 {
        assert(r.processes.insert(pid, p.with_tasks(without_all(p.tasks, order))) =~= r.processes);
        assert(r.tasks.remove_keys(order.to_set()) =~= r.tasks);
    } else {
        let front = order.drop_last();
        let last = order.last();
        assert(exits(pid, order).drop_last() =~= exits(pid, front));
        assert(exits(pid, order).last() == (Event::TaskExited { pid, task_id: last }));
        assert(!front.contains(survivor)) by {
            if front.contains(survivor) {
                let i = choose|i: int| 0 <= i < front.len() && front[i] == survivor;
                assert(order[i] == survivor);
            }
        }
        lemma_run_exits(r, pid, front, survivor);
        let mid = r.run(exits(pid, front));
        let listed = without_all(p.tasks, front);
        assert(mid.processes[pid].tasks == listed);
        assert(after == mid.after_exit(pid, last));
        let left = without(listed, last);
        assert(left == without_all(p.tasks, order));
        assert(left.contains(survivor)) by {
            lemma_without_all_contains(p.tasks, order, survivor);
        }
        assert(left.len() > 0);
        assert(after.processes =~= r.processes.insert(pid, p.with_tasks(left)));
        assert forall|t: u64| order.contains(t) <==> front.contains(t) || t == last by {
            if order.contains(t) {
                let i = choose|i: int| 0 <= i < order.len() && order[i] == t;
                if i < front.len() {
                    assert(front[i] == t);
                }
            }
            if front.contains(t) {
                let i = choose|i: int| 0 <= i < front.len() && front[i] == t;
                assert(order[i] == t);
            }
            assert(order[order.len() - 1] == last);
        }
        assert(after.tasks =~= r.tasks.remove_keys(order.to_set()));
    }
}

/// A history that continues is the history of what came first, continued.
pub proof fn lemma_run_concat(r: RegistryView, first: Seq<Event>, then: Seq<Event>)
    ensures
        r.run(first + then) == r.run(first).run(then),
    decreases then.len(),
{
    if then.len() == 0 {
        assert(first + then =~= first);
    } else {
        assert((first + then).drop_last() =~= first + then.drop_last());
        assert((first + then).last() == then.last());
        lemma_run_concat(r, first, then.drop_last());
    }
}

/// Threads that come and go leave no trace. Let a process with at least one
/// task create the tasks `ids`, none of them known before and no two the same,
/// and let these tasks exit in any order `order` (an order that names a task
/// more than once included). Then the registry is what it was before the first
/// of them was created: the counter of live processes has its old value and
/// none of the ids is in the task table.
pub proof fn law_threads_leave_no_trace(
    r: RegistryView,
    pid: u64,
    ids: Seq<u64>,
    order: Seq<u64>,
)
    requires
        r.wf(),
        r.tasks_registered(),
        r.processes.contains_key(pid),
        r.processes[pid].tasks.len() > 0,
        ids.no_duplicates(),
        forall|i: int| 0 <= i < ids.len() ==> !r.tasks.contains_key(#[trigger] ids[i]),
        forall|t: u64| order.contains(t) <==> ids.contains(t),
    ensures
        r.run(spawns(pid, ids) + exits(pid, order)) == r,
        r.run(spawns(pid, ids) + exits(pid, order)).live == r.live,
        forall|i: int|
            0 <= i < ids.len() ==> !r.run(spawns(pid, ids) + exits(pid, order)).tasks.contains_key(
                #[trigger] ids[i],
            ),
{
    let p = r.processes[pid];
    let survivor = p.tasks[0];
    assert(p.tasks.contains(survivor));
    assert(r.tasks.contains_key(survivor));
    lemma_run_concat(r, spawns(pid, ids), exits(pid, order));
    lemma_run_spawns(r, pid, ids);
    let mid = r.run(spawns(pid, ids));
    let after = mid.run(exits(pid, order));
    assert(!order.contains(survivor)) by {
        if ids.contains(survivor) {
            let i = choose|i: int| 0 <= i < ids.len() && ids[i] == survivor;
            assert(!r.tasks.contains_key(ids[i]));
        }
    }
    assert((p.tasks + ids)[0] == survivor);
    lemma_run_exits(mid, pid, order, survivor);
    assert(without_all(p.tasks + ids, order) == p.tasks) by {
        lemma_without_all_concat(p.tasks, ids, order);
        assert forall|i: int| 0 <= i < order.len() implies !p.tasks.contains(
            #[trigger] order[i],
        ) by {
            assert(order.contains(order[i]));
            let j = choose|j: int| 0 <= j < ids.len() && ids[j] == order[i];
            assert(!r.tasks.contains_key(ids[j]));
        }
        lemma_without_all_disjoint(p.tasks, order);
        assert forall|i: int| 0 <= i < ids.len() implies order.contains(#[trigger] ids[i]) by {
            assert(ids.contains(ids[i]));
        }
        lemma_without_all_covered(ids, order);
        assert(p.tasks + Seq::<u64>::empty() =~= p.tasks);
    }
    assert(after.processes =~= r.processes);
    assert(after.tasks =~= r.tasks) by {
        assert forall|t: u64| r.tasks.contains_key(t) implies !order.contains(t) by {
            if order.contains(t) {
                let j = choose|j: int| 0 <= j < ids.len() && ids[j] == t;
                assert(!r.tasks.contains_key(ids[j]));
            }
        }
    }
    assert forall|i: int| 0 <= i < ids.len() implies !after.tasks.contains_key(
        #[trigger] ids[i],
    ) by {}
}

} // verus!
