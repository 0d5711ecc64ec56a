//! Tracking of child processes by task id, and the shutdown wait message.

use vstd::prelude::*;
use crate::text::{decimal, lemma_text_order, push_decimal, text_less, text_lt};

verus! {

/// The task a child process belongs to.
#[derive(Debug, Clone, Copy, PartialEq, Eq, Structural)]
pub enum TaskId {
    Populate,
    Lessfilter,
    Batch,
}

/// The numeric id of a task: below `32` a task has one live set of
/// children, from `32` on children accumulate.
pub open spec fn task_code(t: TaskId) -> u8 {
    match t {
        TaskId::Populate => 0,
        TaskId::Lessfilter => 3,
        TaskId::Batch => 32,
    }
}

impl TaskId {
    /// The numeric id.
    pub fn code(self) -> (c: u8)
        ensures
            c == task_code(self),
    {
        match self {
            TaskId::Populate => 0,
            TaskId::Lessfilter => 3,
            TaskId::Batch => 32,
        }
    }
}

/// The children registered per task id, in id order.
#[derive(Debug)]
pub struct JobTable<C> {
    pub populate: Vec<C>,
    pub lessfilter: Vec<C>,
    pub batch: Vec<C>,
}

impl<C> JobTable<C> {
    /// The children of `id`.
    pub open spec fn slot(&self, id: TaskId) -> Seq<C> {
        match id {
            TaskId::Populate => self.populate@,
            TaskId::Lessfilter => self.lessfilter@,
            TaskId::Batch => self.batch@,
        }
    }

    /// Whether the children of the ids other than `id` are the same in `a` and `b`.
    pub open spec fn others_same(a: &Self, b: &Self, id: TaskId) -> bool {
        &&& id != TaskId::Populate ==> a.populate@ == b.populate@
        &&& id != TaskId::Lessfilter ==> a.lessfilter@ == b.lessfilter@
        &&& id != TaskId::Batch ==> a.batch@ == b.batch@
    }

    /// No child.
    pub fn new() -> (t: Self)
        ensures
            forall|id: TaskId| (#[trigger] t.slot(id)).len() == 0,
    {
        JobTable { populate: Vec::new(), lessfilter: Vec::new(), batch: Vec::new() }
    }

    /// Takes the children of `id`, leaving none.
    fn take_slot(&mut self, id: TaskId) -> (v: Vec<C>)
        ensures
            v@ == old(self).slot(id),
            final(self).slot(id).len() == 0,
            Self::others_same(old(self), final(self), id),
    {
        let mut v: Vec<C> = Vec::new();
        match id {
            TaskId::Populate => std::mem::swap(&mut v, &mut self.populate),
            TaskId::Lessfilter => std::mem::swap(&mut v, &mut self.lessfilter),
            TaskId::Batch => std::mem::swap(&mut v, &mut self.batch),
        }
        v
    }

    /// Puts `v` as the children of `id`, which had none.
    fn put_slot(&mut self, id: TaskId, v: Vec<C>)
        requires
            old(self).slot(id).len() == 0,
        ensures
            final(self).slot(id) == v@,
            Self::others_same(old(self), final(self), id),
    {
        let mut v = v;
        match id {
            TaskId::Populate => std::mem::swap(&mut v, &mut self.populate),
            TaskId::Lessfilter => std::mem::swap(&mut v, &mut self.lessfilter),
            TaskId::Batch => std::mem::swap(&mut v, &mut self.batch),
        }
    }

    /// Keeps the children of `id` that are still running, as `running`
    /// says of each in order; those that have exited are dropped.
    pub fn retain_running(&mut self, id: TaskId, running: &Vec<bool>)
        requires
            running@.len() == old(self).slot(id).len(),
        ensures
            final(self).slot(id) == still_running(old(self).slot(id), running@),
            Self::others_same(old(self), final(self), id),
    {
        let ghost orig = self.slot(id);
        let mut rest = self.take_slot(id);
        let mut kept: Vec<C> = Vec::new();
        let n = running.len();
        let mut i: usize = 0;
        while rest.len() > 0
            invariant
                n == orig.len(),
                i <= orig.len(),
                running@.len() == orig.len(),
                rest@ == orig.skip(i as int),
                rest@.len() == orig.len() - i,
                kept@ == still_running(orig.take(i as int), running@.take(i as int)),
            decreases rest.len(),
        {
            let c = rest.remove(0);
            assert(orig.take(i + 1).drop_last() =~= orig.take(i as int));
            assert(running@.take(i + 1).drop_last() =~= running@.take(i as int));
            if running[i] {
                kept.push(c);
            }
            i = i + 1;
            assert(rest@ =~= orig.skip(i as int));
        }
        assert(orig.take(i as int) =~= orig);
        assert(running@.take(i as int) =~= running@);
        self.put_slot(id, kept);
    }
}

/// The children of `children` whose flag in `running` is set, in order.
pub open spec fn still_running<C>(children: Seq<C>, running: Seq<bool>) -> Seq<C>
    decreases children.len(),
{
    if children.len() == 0 {
        Seq::empty()
    } else {
        let r = still_running(children.drop_last(), running.drop_last());
        if running.last() {
            r.push(children.last())
        } else {
            r
        }
    }
}

/// The tracker of child processes and background tasks.
pub struct TASKS;

impl TASKS {
    /// Registers `child` under `id`. A task below `32` keeps only its
    /// newest child: the children it had are returned, to be killed. From
    /// `32` on the child is added and nothing is returned.
    pub fn register_child<C>(jobs: &mut JobTable<C>, id: TaskId, child: C) -> (displaced: Vec<C>)
        ensures
            task_code(id) < 32 ==> displaced@ == old(jobs).slot(id) && final(jobs).slot(id) == seq![child],
            task_code(id) >= 32 ==> displaced@.len() == 0 && final(jobs).slot(id) == old(jobs).slot(id).push(
                child,
            ),
            JobTable::others_same(old(jobs), final(jobs), id),
    {
        if id.code() < 32 {
            let displaced = jobs.take_slot(id);
            let mut v: Vec<C> = Vec::new();
            v.push(child);
            match id {
                TaskId::Populate => {
                    jobs.populate = v;
                },
                TaskId::Lessfilter => {
                    jobs.lessfilter = v;
                },
                TaskId::Batch => {
                    jobs.batch = v;
                },
            }
            displaced
        } else {
            jobs.batch.push(child);
            Vec::new()
        }
    }

    /// Takes the children of `id`, to be killed.
    pub fn kill_child<C>(jobs: &mut JobTable<C>, id: TaskId) -> (killed: Vec<C>)
        ensures
            killed@ == old(jobs).slot(id),
            final(jobs).slot(id).len() == 0,
            JobTable::others_same(old(jobs), final(jobs), id),
    {
        jobs.take_slot(id)
    }

    /// Takes the children of every id from `lo` to `hi` (inclusive), in id
    /// order, to be killed.
    pub fn kill_children<C>(jobs: &mut JobTable<C>, lo: u8, hi: u8) -> (killed: Vec<C>)
        ensures
            killed@ == (if lo <= 0 <= hi { old(jobs).populate@ } else { Seq::empty() }) + (if lo <= 3
                <= hi {
                old(jobs).lessfilter@
            } else {
                Seq::empty()
            }) + (if lo <= 32 <= hi { old(jobs).batch@ } else { Seq::empty() }),
            forall|id: TaskId|
                #[trigger] final(jobs).slot(id) == (if lo <= task_code(id) <= hi {
                    Seq::<C>::empty()
                } else {
                    old(jobs).slot(id)
                }),
    {
        let ghost p0 = jobs.populate@;
        let ghost l0 = jobs.lessfilter@;
        let ghost b0 = jobs.batch@;
        let mut killed: Vec<C> = Vec::new();
        if lo <= 0 && 0 <= hi {
            let mut v = jobs.take_slot(TaskId::Populate);
            killed.append(&mut v);
            assert(jobs.slot(TaskId::Lessfilter) == l0);
            assert(jobs.slot(TaskId::Batch) == b0);
        }
        let ghost k1 = killed@;
        assert(k1 =~= (if lo <= 0 <= hi { p0 } else { Seq::empty() }));
        if lo <= 3 && 3 <= hi {
            let mut v = jobs.take_slot(TaskId::Lessfilter);
            killed.append(&mut v);
            assert(jobs.slot(TaskId::Batch) == b0);
            assert(jobs.slot(TaskId::Populate) == (if lo <= 0 <= hi { Seq::<C>::empty() } else { p0 }));
        }
        let ghost k2 = killed@;
        assert(k2 =~= k1 + (if lo <= 3 <= hi { l0 } else { Seq::empty() }));
        if lo <= 32 && 32 <= hi {
            let mut v = jobs.take_slot(TaskId::Batch);
            killed.append(&mut v);
            assert(jobs.slot(TaskId::Populate) == (if lo <= 0 <= hi { Seq::<C>::empty() } else { p0 }));
            assert(jobs.slot(TaskId::Lessfilter) == (if lo <= 3 <= hi { Seq::<C>::empty() } else { l0 }));
        }
        assert(killed@ =~= k2 + (if lo <= 32 <= hi { b0 } else { Seq::empty() }));
        assert forall|id: TaskId|
            #[trigger] jobs.slot(id) == (if lo <= task_code(id) <= hi {
                Seq::<C>::empty()
            } else {
                old(jobs).slot(id)
            }) by {
            match id {
                TaskId::Populate => {},
                TaskId::Lessfilter => {},
                TaskId::Batch => {},
            }
        }
        assert(killed@ =~= (if lo <= 0 <= hi { old(jobs).populate@ } else { Seq::empty() }) + (if lo
            <= 3 <= hi {
            old(jobs).lessfilter@
        } else {
            Seq::empty()
        }) + (if lo <= 32 <= hi { old(jobs).batch@ } else { Seq::empty() }));
        killed
    }
}

/// The shutdown wait message: names the first outstanding task and counts
/// the others, or counts the tasks when none is named.
pub open spec fn waiting_on_spec(total: nat, first: Option<Seq<char>>) -> Seq<char> {
    match first {
        Some(name) => if total <= 1 {
            "Waiting on "@ + name + "."@
        } else {
            let others = (total - 1) as nat;
            "Waiting on "@ + name + " and "@ + decimal(others) + " other"@ + (if others == 1 {
                ""@
            } else {
                "s"@
            }) + "."@
        },
        None => "Waiting on "@ + decimal(total) + " task(s)."@,
    }
}

/// The shutdown wait message for `total` tasks, the first of which (by
/// name order) is `first`: `Waiting on db stash and 2 others.`
pub fn waiting_on(total: usize, first: Option<&str>) -> (s: String)
    ensures
        s@ == waiting_on_spec(total as nat, match first {
            Some(n) => Some(n@),
            None => None,
        }),
{
    let mut s = String::new();
    s.append("Waiting on ");
    match first {
        Some(name) => {
            s.append(name);
            if total <= 1 {
                s.append(".");
            } else {
                let others = total - 1;
                s.append(" and ");
                push_decimal(&mut s, others);
                s.append(" other");
                if others == 1 {
                    s.append("");
                } else {
                    s.append("s");
                }
                s.append(".");
            }
        },
        None => {
            push_decimal(&mut s, total);
            s.append(" task(s).");
        },
    }
    s
}

} // verus!

verus! {

/// What the shutdown wait observes.
#[derive(Debug, Clone, Copy, PartialEq, Eq, Structural)]
pub enum ShutdownEvent {
    /// A task finished; `remaining` are still running.
    TaskDone { remaining: usize },
    /// No task is left to wait for.
    AllDone,
    /// The warning timer fired with `remaining` tasks running.
    WarnTimer { remaining: usize },
    /// The overall timeout fired with `remaining` tasks running.
    Timeout { remaining: usize },
}

/// What the shutdown wait does next.
#[derive(Debug, Clone, Copy, PartialEq, Eq, Structural)]
pub enum ShutdownAction {
    /// Stop waiting; announce that all tasks finished when a warning was shown.
    Finish { announce: bool },
    /// Report the tasks still running (`Waiting on n task(s).`) and go on.
    Report { remaining: usize },
    /// Warn with the waiting message and the Ctrl-C hint, restart the
    /// warning timer, and go on.
    Warn { remaining: usize },
    /// Go on waiting.
    Continue,
    /// Abort the remaining tasks and stop.
    Abort { remaining: usize },
}

/// One step of the shutdown wait, remembering in `warned` whether a
/// warning was shown.
pub fn shutdown_step(warned: &mut bool, event: ShutdownEvent) -> (a: ShutdownAction)
    ensures
        *final(warned) == (*old(warned) || (event matches ShutdownEvent::WarnTimer { remaining } && remaining > 0)),
        a == match event {
            ShutdownEvent::TaskDone { remaining } => if remaining == 0 {
                ShutdownAction::Finish { announce: *old(warned) }
            } else {
                ShutdownAction::Report { remaining }
            },
            ShutdownEvent::AllDone => ShutdownAction::Finish { announce: *old(warned) },
            ShutdownEvent::WarnTimer { remaining } => if remaining > 0 {
                ShutdownAction::Warn { remaining }
            } else {
                ShutdownAction::Continue
            },
            ShutdownEvent::Timeout { remaining } => ShutdownAction::Abort { remaining },
        },
{
    match event {
        ShutdownEvent::TaskDone { remaining } => {
            if remaining == 0 {
                ShutdownAction::Finish { announce: *warned }
            } else {
                ShutdownAction::Report { remaining }
            }
        },
        ShutdownEvent::AllDone => ShutdownAction::Finish { announce: *warned },
        ShutdownEvent::WarnTimer { remaining } => {
            if remaining > 0 {
                *warned = true;
                ShutdownAction::Warn { remaining }
            } else {
                ShutdownAction::Continue
            }
        },
        ShutdownEvent::Timeout { remaining } => ShutdownAction::Abort { remaining },
    }
}

/// The text the shutdown wait shows for an action, given the first
/// outstanding task's name; `None` for an action that shows nothing.
pub fn shutdown_text(action: ShutdownAction, first: Option<&str>) -> (t: Option<String>)
    ensures
        match action {
            ShutdownAction::Finish { announce } => if announce {
                t matches Some(s) && s@ == "All tasks finished"@
            } else {
                t is None
            },
            ShutdownAction::Report { remaining } => t matches Some(s) && s@ == waiting_on_spec(
                remaining as nat,
                None,
            ),
            ShutdownAction::Warn { remaining } => t matches Some(s) && s@ == waiting_on_spec(
                remaining as nat,
                match first {
                    Some(n) => Some(n@),
                    None => None,
                },
            ) + " (Press Ctrl-C to exit)."@,
            ShutdownAction::Continue => t is None,
            ShutdownAction::Abort { remaining } => t matches Some(s) && s@ == "Shutdown timeout reached. Aborting "@
                + decimal(remaining as nat) + " task(s)."@,
        },
{
    match action {
        ShutdownAction::Finish { announce } => {
            if announce {
                Some("All tasks finished".to_string())
            } else {
                None
            }
        },
        ShutdownAction::Report { remaining } => Some(waiting_on(remaining, None)),
        ShutdownAction::Warn { remaining } => {
            let mut s = waiting_on(remaining, first);
            s.append(" (Press Ctrl-C to exit).");
            Some(s)
        },
        ShutdownAction::Continue => None,
        ShutdownAction::Abort { remaining } => {
            let mut s = "Shutdown timeout reached. Aborting ".to_string();
            push_decimal(&mut s, remaining);
            s.append(" task(s).");
            Some(s)
        },
    }
}

/// The descriptions of the tasks in flight, each with how many of them run.
pub struct TaskNames {
    pub entries: Vec<(String, usize)>,
}

/// No description twice, and each with at least one task.
pub open spec fn names_wf(e: Seq<(String, usize)>) -> bool {
    &&& forall|i: int, j: int| 0 <= i < j < e.len() ==> (#[trigger] e[i]).0@ != (#[trigger] e[j]).0@
    &&& forall|i: int| 0 <= i < e.len() ==> (#[trigger] e[i]).1 >= 1
}

/// How many tasks with the description `k` are in flight.
pub open spec fn count_of(e: Seq<(String, usize)>, k: Seq<char>) -> nat
    decreases e.len(),
{
    if e.len() == 0 {
        0
    } else if e.last().0@ == k {
        e.last().1 as nat
    } else {
        count_of(e.drop_last(), k)
    }
}

/// The count of a description is that of its entry, and 0 without one.
proof fn lemma_count_of(e: Seq<(String, usize)>, k: Seq<char>)
    requires
        names_wf(e),
    ensures
        forall|i: int| 0 <= i < e.len() && (#[trigger] e[i]).0@ == k ==> count_of(e, k) == e[i].1,
        (forall|i: int| 0 <= i < e.len() ==> (#[trigger] e[i]).0@ != k) ==> count_of(e, k) == 0,
    decreases e.len(),
{
    if e.len() > 0 {
        let p = e.drop_last();
        assert(names_wf(p)) by {
            assert forall|i: int, j: int| 0 <= i < j < p.len() implies (#[trigger] p[i]).0@ != (#[trigger] p[j]).0@ by {
                assert(p[i] == e[i] && p[j] == e[j]);
            }
            assert forall|i: int| 0 <= i < p.len() implies (#[trigger] p[i]).1 >= 1 by {
                assert(p[i] == e[i]);
            }
        }
        lemma_count_of(p, k);
        assert forall|i: int| 0 <= i < e.len() && (#[trigger] e[i]).0@ == k implies count_of(e, k) == e[i].1 by {
            if i < e.len() - 1 {
                assert(p[i] == e[i]);
            }
        }
        if forall|i: int| 0 <= i < e.len() ==> (#[trigger] e[i]).0@ != k {
            assert forall|i: int| 0 <= i < p.len() implies (#[trigger] p[i]).0@ != k by {
                assert(p[i] == e[i]);
            }
            assert(e[e.len() - 1].0@ != k);
        }
    }
}

impl TaskNames {
    /// No task in flight.
    pub fn new() -> (r: Self)
        ensures
            names_wf(r.entries@),
            forall|k: Seq<char>| count_of(r.entries@, k) == 0,
    {
        TaskNames { entries: Vec::new() }
    }

    /// The index of the entry of `desc`, if any.
    fn find(&self, desc: &str) -> (r: Option<usize>)
        requires
            names_wf(self.entries@),
        ensures
            r matches Some(i) ==> i < self.entries@.len() && self.entries@[i as int].0@ == desc@,
            r is None ==> forall|i: int| 0 <= i < self.entries@.len() ==> (#[trigger] self.entries@[i]).0@ != desc@,
    {
        let mut i: usize = 0;
        while i < self.entries.len()
            invariant
                i <= self.entries@.len(),
                forall|j: int| 0 <= j < i ==> (#[trigger] self.entries@[j]).0@ != desc@,
            decreases self.entries@.len() - i,
        {
            if crate::text::str_eq(self.entries[i].0.as_str(), desc) {
                return Some(i);
            }
            i = i + 1;
        }
        None
    }

    /// One more task with the description `desc` is in flight.
    pub fn register(&mut self, desc: String)
        requires
            names_wf(old(self).entries@),
            count_of(old(self).entries@, desc@) < usize::MAX,
        ensures
            names_wf(final(self).entries@),
            forall|k: Seq<char>|
                #[trigger] count_of(final(self).entries@, k) == if k == desc@ {
                    count_of(old(self).entries@, k) + 1
                } else {
                    count_of(old(self).entries@, k)
                },
    {
        let ghost e = self.entries@;
        proof {
            lemma_count_of(e, desc@);
        }
        match self.find(desc.as_str()) {
            Some(i) => {
                let c = self.entries[i].1;
                let name = self.entries[i].0.clone();
                self.entries.set(i, (name, c + 1));
                let ghost f = self.entries@;
                assert(names_wf(f)) by {
                    assert forall|a: int, b: int| 0 <= a < b < f.len() implies (#[trigger] f[a]).0@ != (#[trigger] f[b]).0@ by {
                        assert(f[a].0@ == e[a].0@ && f[b].0@ == e[b].0@);
                    }
                    assert forall|a: int| 0 <= a < f.len() implies (#[trigger] f[a]).1 >= 1 by {
                        if a != i {
                            assert(f[a] == e[a]);
                        }
                    }
                }
                assert forall|k: Seq<char>| #[trigger] count_of(f, k) == if k == desc@ {
                    count_of(e, k) + 1
                } else {
                    count_of(e, k)
                } by {
                    lemma_count_of(e, k);
                    lemma_count_of(f, k);
                    if k == desc@ {
                        assert(e[i as int].0@ == k && f[i as int].0@ == k);
                    } else {
                        if exists|j: int| 0 <= j < e.len() && (#[trigger] e[j]).0@ == k {
                            let j = choose|j: int| 0 <= j < e.len() && (#[trigger] e[j]).0@ == k;
                            assert(f[j] == e[j]);
                        } else {
                            assert forall|j: int| 0 <= j < f.len() implies (#[trigger] f[j]).0@ != k by {
                                assert(f[j].0@ == e[j].0@);
                            }
                        }
                    }
                }
            },
            None => {
                self.entries.push((desc, 1));
                let ghost f = self.entries@;
                assert(f.drop_last() =~= e);
                assert(names_wf(f)) by {
                    assert forall|a: int, b: int| 0 <= a < b < f.len() implies (#[trigger] f[a]).0@ != (#[trigger] f[b]).0@ by {
                        if b < e.len() {
                            assert(f[a] == e[a] && f[b] == e[b]);
                        } else {
                            assert(f[a] == e[a]);
                        }
                    }
                    assert forall|a: int| 0 <= a < f.len() implies (#[trigger] f[a]).1 >= 1 by {
                        if a < e.len() {
                            assert(f[a] == e[a]);
                        }
                    }
                }
            },
        }
    }

    /// One task with the description `desc` has ended.
    pub fn unregister(&mut self, desc: &str)
        requires
            names_wf(old(self).entries@),
        ensures
            names_wf(final(self).entries@),
            forall|k: Seq<char>|
                #[trigger] count_of(final(self).entries@, k) == if k == desc@ && count_of(old(self).entries@, k) > 1 {
                    (count_of(old(self).entries@, k) - 1) as nat
                } else if k == desc@ {
                    0
                } else {
                    count_of(old(self).entries@, k)
                },
    {
        let ghost e = self.entries@;
        proof {
            lemma_count_of(e, desc@);
        }
        match self.find(desc) {
            Some(i) => {
                let c = self.entries[i].1;
                if c > 1 {
                    let name = self.entries[i].0.clone();
                    self.entries.set(i, (name, c - 1));
                    let ghost f = self.entries@;
                    assert(names_wf(f)) by {
                        assert forall|a: int, b: int| 0 <= a < b < f.len() implies (#[trigger] f[a]).0@ != (#[trigger] f[b]).0@ by {
                            assert(f[a].0@ == e[a].0@ && f[b].0@ == e[b].0@);
                        }
                        assert forall|a: int| 0 <= a < f.len() implies (#[trigger] f[a]).1 >= 1 by {
                            if a != i {
                                assert(f[a] == e[a]);
                            }
                        }
                    }
                    assert forall|k: Seq<char>| #[trigger] count_of(f, k) == if k == desc@ && count_of(e, k) > 1 {
                        (count_of(e, k) - 1) as nat
                    } else if k == desc@ {
                        0
                    } else {
                        count_of(e, k)
                    } by {
                        lemma_count_of(e, k);
                        lemma_count_of(f, k);
                        if k == desc@ {
                            assert(e[i as int].0@ == k && f[i as int].0@ == k);
                        } else {
                            if exists|j: int| 0 <= j < e.len() && (#[trigger] e[j]).0@ == k {
                                let j = choose|j: int| 0 <= j < e.len() && (#[trigger] e[j]).0@ == k;
                                assert(f[j] == e[j]);
                            } else {
                                assert forall|j: int| 0 <= j < f.len() implies (#[trigger] f[j]).0@ != k by {
                                    assert(f[j].0@ == e[j].0@);
                                }
                            }
                        }
                    }
                } else {
                    self.entries.remove(i);
                    let ghost f = self.entries@;
                    assert(forall|j: int| 0 <= j < f.len() ==> #[trigger] f[j] == e[if j < i { j } else { j + 1 }]);
                    assert(names_wf(f)) by {
                        assert forall|a: int, b: int| 0 <= a < b < f.len() implies (#[trigger] f[a]).0@ != (#[trigger] f[b]).0@ by {
                            let a2 = if a < i { a } else { a + 1 };
                            let b2 = if b < i { b } else { b + 1 };
                            assert(f[a] == e[a2] && f[b] == e[b2]);
                        }
                        assert forall|a: int| 0 <= a < f.len() implies (#[trigger] f[a]).1 >= 1 by {
                            let a2 = if a < i { a } else { a + 1 };
                            assert(f[a] == e[a2]);
                        }
                    }
                    assert forall|k: Seq<char>| #[trigger] count_of(f, k) == if k == desc@ && count_of(e, k) > 1 {
                        (count_of(e, k) - 1) as nat
                    } else if k == desc@ {
                        0
                    } else {
                        count_of(e, k)
                    } by {
                        lemma_count_of(e, k);
                        lemma_count_of(f, k);
                        if k == desc@ {
                            assert(e[i as int].0@ == k);
                            assert forall|j: int| 0 <= j < f.len() implies (#[trigger] f[j]).0@ != k by {
                                let j2 = if j < i { j } else { j + 1 };
                                assert(f[j] == e[j2]);
                            }
                        } else if exists|j: int| 0 <= j < e.len() && (#[trigger] e[j]).0@ == k {
                            let j = choose|j: int| 0 <= j < e.len() && (#[trigger] e[j]).0@ == k;
                            let j2 = if j < i { j } else { j - 1 };
                            assert(f[j2] == e[j]);
                        } else {
                            assert forall|j: int| 0 <= j < f.len() implies (#[trigger] f[j]).0@ != k by {
                                let j2 = if j < i { j } else { j + 1 };
                                assert(f[j] == e[j2]);
                            }
                        }
                    }
                }
            },
            None => {
                assert forall|k: Seq<char>| #[trigger] count_of(e, k) == if k == desc@ && count_of(e, k) > 1 {
                    (count_of(e, k) - 1) as nat
                } else if k == desc@ {
                    0
                } else {
                    count_of(e, k)
                } by {}
            },
        }
    }

    /// How many tasks with the description `desc` are in flight.
    pub fn count(&self, desc: &str) -> (r: usize)
        requires
            names_wf(self.entries@),
        ensures
            r == count_of(self.entries@, desc@),
    {
        proof {
            lemma_count_of(self.entries@, desc@);
        }
        match self.find(desc) {
            Some(i) => self.entries[i].1,
            None => 0,
        }
    }

    /// The first description in text order, if any task is in flight.
    pub fn first(&self) -> (r: Option<String>)
        requires
            names_wf(self.entries@),
        ensures
            r is None <==> forall|k: Seq<char>| count_of(self.entries@, k) == 0,
            r matches Some(s) ==> count_of(self.entries@, s@) > 0 && forall|k: Seq<char>|
                count_of(self.entries@, k) > 0 && k != s@ ==> #[trigger] text_lt(s@, k),
    {
        let ghost e = self.entries@;
        if self.entries.len() == 0 {
            proof {
                assert forall|k: Seq<char>| count_of(e, k) == 0 by {
                    lemma_count_of(e, k);
                }
            }
            return None;
        }
        let mut best: usize = 0;
        let mut best_chars = crate::text::to_chars(self.entries[0].0.as_str());
        let mut i: usize = 1;
        while i < self.entries.len()
            invariant
                e == self.entries@,
                names_wf(e),
                1 <= i <= e.len(),
                best < i,
                best_chars@ == e[best as int].0@,
                forall|j: int| 0 <= j < i && j != best ==> text_lt(e[best as int].0@, #[trigger] e[j].0@),
            decreases e.len() - i,
        {
            let c = crate::text::to_chars(self.entries[i].0.as_str());
            if text_less(&c, &best_chars) {
                proof {
                    assert forall|j: int| 0 <= j < i + 1 && j != i implies text_lt(e[i as int].0@, #[trigger] e[j].0@) by {
                        lemma_text_order(e[i as int].0@, e[best as int].0@, e[j].0@);
                    }
                }
                best = i;
                best_chars = c;
            } else {
                proof {
                    assert(e[i as int].0@ != e[best as int].0@);
                    lemma_text_order(e[best as int].0@, e[i as int].0@, e[i as int].0@);
                }
            }
            i = i + 1;
        }
        proof {
            assert forall|k: Seq<char>| count_of(e, k) > 0 && k != e[best as int].0@ implies #[trigger] text_lt(
                e[best as int].0@,
                k,
            ) by {
                lemma_count_of(e, k);
                if exists|j: int| 0 <= j < e.len() && (#[trigger] e[j]).0@ == k {
                    let j = choose|j: int| 0 <= j < e.len() && (#[trigger] e[j]).0@ == k;
                    assert(j != best);
                }
            }
            lemma_count_of(e, e[best as int].0@);
        }
        Some(self.entries[best].0.clone())
    }
}

} // verus!
