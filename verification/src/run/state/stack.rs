//! The navigation stack of panes: the panes visited, the one shown, and
//! moving back and forth through them.

use vstd::prelude::*;

verus! {

/// The kind of a pane.
#[derive(Debug, Clone, Copy, PartialEq, Eq, Structural)]
pub enum PaneKind {
    /// Items from a command or stdin.
    Custom,
    /// Files found under a directory.
    Find,
    /// Lines matching a search.
    Search,
    /// Visited files.
    Files,
    /// Visited folders.
    Folders,
    /// Applications.
    Apps,
    /// A named stash.
    Stash,
    /// A directory listing.
    Nav,
}

/// A pane on the stack: its kind, its directory (for the kinds that have
/// one), the saved query and cursor index, and what else the front end
/// keeps for it.
#[derive(Debug)]
pub struct StackPane<P> {
    pub kind: PaneKind,
    pub cwd: String,
    pub input: (String, u32),
    pub data: P,
}

/// Whether a pane kind lists history (visited files or folders).
pub open spec fn is_history(k: PaneKind) -> bool {
    k == PaneKind::Files || k == PaneKind::Folders
}

/// Whether a pane kind has a directory of its own.
pub open spec fn has_cwd(k: PaneKind) -> bool {
    k == PaneKind::Nav || k == PaneKind::Custom || k == PaneKind::Find || k == PaneKind::Search
}

/// The directory shown for the panes `ps` (the current one last): the
/// directory of the nearest pane that has one; none past an apps pane;
/// `initial` when only history or stash panes were passed (`seen`).
pub open spec fn cwd_scan<P>(ps: Seq<StackPane<P>>, seen: bool, initial: Seq<char>) -> Option<Seq<char>>
    decreases ps.len(),
{
    if ps.len() == 0 {
        if seen {
            Some(initial)
        } else {
            None
        }
    } else {
        let k = ps.last().kind;
        if has_cwd(k) {
            Some(ps.last().cwd@)
        } else if k == PaneKind::Apps {
            None
        } else {
            cwd_scan(ps.drop_last(), true, initial)
        }
    }
}

/// The position after stepping back.
pub open spec fn prev_pos(pos: int) -> int {
    if pos > 0 {
        pos - 1
    } else {
        pos
    }
}

/// The position after stepping forward through `len` panes.
pub open spec fn next_pos(pos: int, len: int) -> int {
    if pos < len - 1 {
        pos + 1
    } else {
        pos
    }
}

/// Whether a pane kind saves its query and cursor index.
pub open spec fn saves_input(k: PaneKind) -> bool {
    k == PaneKind::Custom || k == PaneKind::Nav || k == PaneKind::Files || k == PaneKind::Folders
        || k == PaneKind::Stash || k == PaneKind::Find
}

/// Whether a pane kind restores its cursor index.
pub open spec fn restores_index(k: PaneKind) -> bool {
    saves_input(k) || k == PaneKind::Search
}

/// The stack: never empty, with the shown pane at `index`.
#[derive(Debug)]
pub struct NavStack<P> {
    stack: Vec<StackPane<P>>,
    index: usize,
}

impl<P> NavStack<P> {
    /// The stack is not empty and the shown pane is one of its panes.
    pub closed spec fn wf(&self) -> bool {
        self.stack@.len() > 0 && self.index < self.stack@.len()
    }

    /// The panes, oldest first.
    pub closed spec fn panes(&self) -> Seq<StackPane<P>> {
        self.stack@
    }

    /// The position of the shown pane.
    pub closed spec fn pos(&self) -> int {
        self.index as int
    }

    /// The shown pane.
    pub open spec fn shown(&self) -> StackPane<P> {
        self.panes()[self.pos()]
    }

    /// A stack holding `pane` alone.
    pub fn init(pane: StackPane<P>) -> (s: Self)
        ensures
            s.wf(),
            s.panes() == seq![pane],
            s.pos() == 0,
    {
        let mut stack: Vec<StackPane<P>> = Vec::new();
        stack.push(pane);
        NavStack { stack, index: 0 }
    }

    /// Number of panes; there is at least one, and the shown one is among them.
    pub fn len(&self) -> (n: usize)
        requires
            self.wf(),
        ensures
            n == self.panes().len(),
            0 <= self.pos() < n,
    {
        self.stack.len()
    }

    /// The shown pane.
    pub fn current(&self) -> (p: &StackPane<P>)
        requires
            self.wf(),
        ensures
            *p == self.shown(),
    {
        &self.stack[self.index]
    }

    /// Shows `pane` after the shown pane, dropping the panes ahead of it;
    /// returns whether it has the kind of the pane it follows.
    pub fn push(&mut self, pane: StackPane<P>) -> (same: bool)
        requires
            old(self).wf(),
        ensures
            final(self).wf(),
            final(self).panes() == old(self).panes().take(old(self).pos() + 1).push(pane),
            final(self).pos() == old(self).pos() + 1,
            same == (old(self).shown().kind == pane.kind),
    {
        let same = self.stack[self.index].kind == pane.kind;
        let n = self.stack.len();
        assert(self.index < n);
        self.stack.truncate(self.index + 1);
        self.stack.push(pane);
        self.index = self.index + 1;
        same
    }

    /// Shows the previous pane; `false` at the first one.
    pub fn stack_prev(&mut self) -> (moved: bool)
        requires
            old(self).wf(),
        ensures
            final(self).wf(),
            final(self).panes() == old(self).panes(),
            final(self).pos() == prev_pos(old(self).pos()),
            moved == (old(self).pos() > 0),
    {
        if self.index > 0 {
            self.index = self.index - 1;
            true
        } else {
            false
        }
    }

    /// Shows the next pane; `false` at the last one.
    pub fn stack_next(&mut self) -> (moved: bool)
        requires
            old(self).wf(),
        ensures
            final(self).wf(),
            final(self).panes() == old(self).panes(),
            final(self).pos() == next_pos(old(self).pos(), old(self).panes().len() as int),
            moved == (old(self).pos() < old(self).panes().len() - 1),
    {
        if self.index < self.stack.len() - 1 {
            self.index = self.index + 1;
            true
        } else {
            false
        }
    }

    /// Toggles the history panes. From a history pane right after the
    /// other history pane, steps back to it (`false`). Otherwise shows a new
    /// history pane with `data` and empty input after the shown pane:
    /// folders, or files when folders are shown; returns whether the shown
    /// pane was not a history pane.
    pub fn swap_history(&mut self, data: P) -> (entered: bool)
        requires
            old(self).wf(),
        ensures
            final(self).wf(),
            ({
                let o = old(self);
                let k = o.shown().kind;
                if o.pos() > 0 && is_history(o.panes()[o.pos() - 1].kind) && is_history(k)
                    && o.panes()[o.pos() - 1].kind != k {
                    &&& final(self).panes() == o.panes()
                    &&& final(self).pos() == o.pos() - 1
                    &&& !entered
                } else {
                    &&& final(self).pos() == o.pos() + 1
                    &&& final(self).panes().len() == o.pos() + 2
                    &&& final(self).panes().take(o.pos() + 1) == o.panes().take(o.pos() + 1)
                    &&& final(self).shown().kind == (if k == PaneKind::Folders {
                        PaneKind::Files
                    } else {
                        PaneKind::Folders
                    })
                    &&& final(self).shown().cwd@.len() == 0
                    &&& final(self).shown().input.0@.len() == 0
                    &&& final(self).shown().input.1 == 0
                    &&& final(self).shown().data == data
                    &&& entered == !is_history(k)
                }
            }),
    {
        let i = self.index;
        let k = self.stack[i].kind;
        let k_hist = k == PaneKind::Files || k == PaneKind::Folders;
        if i > 0 {
            let pk = self.stack[i - 1].kind;
            if (pk == PaneKind::Files || pk == PaneKind::Folders) && k_hist && pk != k {
                self.index = i - 1;
                return false;
            }
        }
        let kind = if k == PaneKind::Folders {
            PaneKind::Files
        } else {
            PaneKind::Folders
        };
        let pane = StackPane { kind, cwd: String::new(), input: (String::new(), 0), data };
        self.push(pane);
        !k_hist
    }

    /// Replaces the shown pane.
    pub fn set_current(&mut self, pane: StackPane<P>)
        requires
            old(self).wf(),
        ensures
            final(self).wf(),
            final(self).panes() == old(self).panes().update(old(self).pos(), pane),
            final(self).pos() == old(self).pos(),
    {
        self.stack.set(self.index, pane);
    }

    /// Whether changing the shown pane's sort repopulates it.
    pub fn reloads_by_sorting(&self) -> (b: bool)
        requires
            self.wf(),
        ensures
            b == (is_history(self.shown().kind) || self.shown().kind == PaneKind::Apps
                || self.shown().kind == PaneKind::Search),
    {
        let k = self.current().kind;
        k == PaneKind::Files || k == PaneKind::Folders || k == PaneKind::Apps || k == PaneKind::Search
    }

    /// Updates the shown pane in place when `pane` has its kind, else
    /// shows `pane` after it; returns whether it pushed.
    pub fn set_or_push(&mut self, pane: StackPane<P>) -> (pushed: bool)
        requires
            old(self).wf(),
        ensures
            final(self).wf(),
            pushed == (old(self).shown().kind != pane.kind),
            pushed ==> final(self).panes() == old(self).panes().take(old(self).pos() + 1).push(pane)
                && final(self).pos() == old(self).pos() + 1,
            !pushed ==> final(self).panes() == old(self).panes().update(old(self).pos(), pane)
                && final(self).pos() == old(self).pos(),
    {
        let different = self.current().kind != pane.kind;
        if !different {
            self.set_current(pane);
        } else {
            self.push(pane);
        }
        different
    }

    /// The directory shown for the panes up to the shown one (see
    /// [`cwd_scan`]); `initial` is the directory the program started in.
    pub fn cwd(&self, initial: &str) -> (r: Option<String>)
        requires
            self.wf(),
        ensures
            match cwd_scan(self.panes().take(self.pos() + 1), false, initial@) {
                Some(c) => r matches Some(s) && s@ == c,
                None => r is None,
            },
    {
        let ghost ps = self.stack@;
        let n = self.stack.len();
        assert(self.index < n);
        let mut i: usize = self.index + 1;
        let mut seen = false;
        while i > 0
            invariant
                ps == self.stack@,
                i <= self.index + 1,
                self.index < ps.len(),
                cwd_scan(ps.take(self.index + 1), false, initial@) == cwd_scan(ps.take(i as int), seen, initial@),
            decreases i,
        {
            let p = &self.stack[i - 1];
            proof {
                assert(ps.take(i as int).last() == ps[i - 1]);
                assert(ps.take(i as int).drop_last() =~= ps.take(i - 1));
            }
            if p.kind == PaneKind::Nav || p.kind == PaneKind::Custom || p.kind == PaneKind::Find
                || p.kind == PaneKind::Search {
                return Some(p.cwd.clone());
            } else if p.kind == PaneKind::Apps {
                return None;
            }
            seen = true;
            i = i - 1;
        }
        if seen {
            Some(initial.to_owned())
        } else {
            None
        }
    }

    /// The directory of the shown pane when it is a directory listing.
    pub fn nav_cwd(&self) -> (r: Option<String>)
        requires
            self.wf(),
        ensures
            self.shown().kind == PaneKind::Nav ==> (r matches Some(s) && s@ == self.shown().cwd@),
            self.shown().kind != PaneKind::Nav ==> r is None,
    {
        let p = self.current();
        if p.kind == PaneKind::Nav {
            Some(p.cwd.clone())
        } else {
            None
        }
    }

    /// Whether the shown pane is the last one.
    pub fn is_last(&self) -> (b: bool)
        requires
            self.wf(),
        ensures
            b == (self.pos() == self.panes().len() - 1),
    {
        self.index == self.stack.len() - 1
    }

    /// Saves the query and cursor index into the shown pane, for the kinds
    /// that keep them.
    pub fn save_input(&mut self, content: String, cursor: u32)
        requires
            old(self).wf(),
        ensures
            final(self).wf(),
            final(self).pos() == old(self).pos(),
            saves_input(old(self).shown().kind) ==> final(self).panes() == old(self).panes().update(
                old(self).pos(),
                StackPane { input: (content, cursor), ..old(self).shown() },
            ),
            !saves_input(old(self).shown().kind) ==> final(self).panes() == old(self).panes(),
    {
        let k = self.stack[self.index].kind;
        if k == PaneKind::Custom || k == PaneKind::Nav || k == PaneKind::Files || k == PaneKind::Folders
            || k == PaneKind::Stash || k == PaneKind::Find {
            let i = self.index;
            let ghost before = self.stack@;
            let mut p = self.stack.remove(i);
            p.input = (content, cursor);
            self.stack.insert(i, p);
            assert(self.stack@ =~= before.update(i as int, StackPane { input: (content, cursor), ..before[i as int] }));
        }
    }

    /// Takes the saved cursor index of the shown pane, leaving `0`; `0`
    /// reads as none.
    pub fn take_maybe_index(&mut self) -> (r: Option<u32>)
        requires
            old(self).wf(),
        ensures
            final(self).wf(),
            final(self).pos() == old(self).pos(),
            restores_index(old(self).shown().kind) ==> {
                &&& final(self).panes() == old(self).panes().update(
                    old(self).pos(),
                    StackPane { input: (old(self).shown().input.0, 0), ..old(self).shown() },
                )
                &&& r == (if old(self).shown().input.1 == 0 {
                    None
                } else {
                    Some(old(self).shown().input.1)
                })
            },
            !restores_index(old(self).shown().kind) ==> final(self).panes() == old(self).panes()
                && r is None,
    {
        let k = self.stack[self.index].kind;
        if k == PaneKind::Apps {
            return None;
        }
        let i = self.index;
        let ghost before = self.stack@;
        let mut p = self.stack.remove(i);
        let ret = p.input.1;
        p.input.1 = 0;
        self.stack.insert(i, p);
        assert(self.stack@ =~= before.update(i as int, StackPane { input: (before[i as int].input.0, 0), ..before[i as int] }));
        if ret != 0 {
            Some(ret)
        } else {
            None
        }
    }

    /// Whether the shown pane lists applications.
    pub fn in_app(&self) -> (b: bool)
        requires
            self.wf(),
        ensures
            b == (self.shown().kind == PaneKind::Apps),
    {
        self.current().kind == PaneKind::Apps
    }

    /// Whether the shown pane lists search matches.
    pub fn in_rg(&self) -> (b: bool)
        requires
            self.wf(),
        ensures
            b == (self.shown().kind == PaneKind::Search),
    {
        self.current().kind == PaneKind::Search
    }
}

/// Stepping back and then forward shows the same pane again, and so does
/// stepping forward and then back, whenever the first step moves.
pub proof fn lemma_step_round_trip(pos: int, len: int)
    requires
        0 <= pos < len,
    ensures
        pos > 0 ==> next_pos(prev_pos(pos), len) == pos,
        pos < len - 1 ==> prev_pos(next_pos(pos, len)) == pos,
{
}

/// Taking the saved index twice gives nothing the second time.
pub proof fn lemma_index_taken_once<P>(s1: NavStack<P>, s2: NavStack<P>)
    requires
        0 <= s1.pos() < s1.panes().len(),
        s2.pos() == s1.pos(),
        restores_index(s1.shown().kind),
        s2.panes() == s1.panes().update(s1.pos(), StackPane { input: (s1.shown().input.0, 0), ..s1.shown() }),
    ensures
        s2.shown().input.1 == 0,
        s2.shown().kind == s1.shown().kind,
{
}

} // verus!
