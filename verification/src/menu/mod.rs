//! Menu actions: their configuration model, the reserved action keys and
//! target resolution.

pub mod order;

use indexmap::IndexMap;
use vstd::prelude::*;
use crate::collections::{entry_index, entries_insert, key_is, keys_distinct};
use crate::text::{chars_eq_ignore_ascii_case, eq_ignore_ascii_case, str_eq, to_chars};

verus! {

/// How a menu action runs.
#[derive(Debug, Clone, Copy, PartialEq, Eq, Structural)]
pub enum MenuStrategy {
    /// Run the command through the lua engine and wait for it.
    Execute,
    /// Run the command without waiting (the default).
    ExecuteSilent,
    /// Run the command, wait, and page its stdout.
    ExecPaged,
    /// Enqueue all targets into a single queue item.
    Queue,
    /// Enqueue the targets into queue items of at most `n` paths each.
    QueueBatch(usize),
}

impl MenuStrategy {
    /// `ExecuteSilent`, the strategy of an action that names none.
    pub fn default_strategy() -> (s: Self)
        ensures
            s == MenuStrategy::ExecuteSilent,
    {
        MenuStrategy::ExecuteSilent
    }
}

/// A file rule of the previewer's rule language, kept as written
/// (for example `type:f`); it is evaluated by the rule engine.
#[derive(Debug, Clone, PartialEq, Eq)]
pub struct FileRule {
    pub rule: String,
}

/// The picker state a repeated rule is evaluated against.
#[derive(Debug, Clone, Copy, PartialEq, Eq, Structural)]
pub enum SelectedCondition {
    /// The cursor item.
    Cursor,
    /// The current directory.
    Cwd,
    /// The selected items: exactly `n` when strict, at least `n` otherwise.
    Selections(usize),
    /// The selections, else the cursor item, else the current directory.
    Active,
}

/// The scope a configuration names by `s`: `cursor`, `cwd`, and `active`
/// (also spelled `single`).
pub open spec fn spelled(s: Seq<char>) -> Option<SelectedCondition> {
    if s == "cursor"@ {
        Some(SelectedCondition::Cursor)
    } else if s == "cwd"@ {
        Some(SelectedCondition::Cwd)
    } else if s == "active"@ || s == "single"@ {
        Some(SelectedCondition::Active)
    } else {
        None
    }
}

impl SelectedCondition {
    /// The scope named by `s`; `None` for an unknown name.
    pub fn from_spelling(s: &str) -> (r: Option<Self>)
        ensures
            r == spelled(s@),
    {
        if str_eq(s, "cursor") {
            Some(SelectedCondition::Cursor)
        } else if str_eq(s, "cwd") {
            Some(SelectedCondition::Cwd)
        } else if str_eq(s, "active") || str_eq(s, "single") {
            Some(SelectedCondition::Active)
        } else {
            None
        }
    }

    /// The scope written as a number: that many selections; a negative
    /// count is refused.
    pub fn from_count(v: i64) -> (r: Option<Self>)
        ensures
            v < 0 ==> r is None,
            v >= 0 ==> r == Some(SelectedCondition::Selections(v as usize)),
    {
        if v < 0 {
            None
        } else {
            Some(SelectedCondition::Selections(v as usize))
        }
    }

    /// The name the scope is written as; a selections count is written as
    /// the number itself, and has none.
    pub fn spelling(&self) -> (r: Option<String>)
        ensures
            match r {
                Some(t) => spelling_of(*self) == Some(t@),
                None => spelling_of(*self) is None,
            },
    {
        match self {
            SelectedCondition::Cursor => Some("cursor".to_string()),
            SelectedCondition::Cwd => Some("cwd".to_string()),
            SelectedCondition::Active => Some("active".to_string()),
            SelectedCondition::Selections(_) => None,
        }
    }
}

/// The name a scope is written as; none for a selections count.
pub open spec fn spelling_of(c: SelectedCondition) -> Option<Seq<char>> {
    match c {
        SelectedCondition::Cursor => Some("cursor"@),
        SelectedCondition::Cwd => Some("cwd"@),
        SelectedCondition::Active => Some("active"@),
        SelectedCondition::Selections(_) => None,
    }
}

/// A scope written by its name reads back as itself.
pub proof fn lemma_spelling_round_trip(c: SelectedCondition)
    ensures
        spelling_of(c) matches Some(t) ==> spelled(t) == Some(c),
{
    reveal_strlit("cursor");
    reveal_strlit("cwd");
    reveal_strlit("active");
    reveal_strlit("single");
    match c {
        SelectedCondition::Cwd => {
            assert("cwd"@.len() != "cursor"@.len());
        },
        SelectedCondition::Active => {
            assert("active"@[0] != "cursor"@[0]);
            assert("active"@.len() != "cwd"@.len());
        },
        _ => {},
    }
}

/// Repetition of a single rule, scoped by a [`SelectedCondition`].
#[derive(Debug, Clone)]
pub struct RepeatCondition {
    pub selected: SelectedCondition,
    pub condition: FileRule,
    pub strict: bool,
}

/// A criterion evaluated against the picker state at menu open.
#[derive(Debug, Clone)]
pub enum MenuCondition {
    /// Rule `i` must match the `i`-th selected item, and as many items as
    /// rules must be selected.
    Sequence(Vec<FileRule>),
    /// One rule, repeated over the state chosen by its scope.
    Repeat(RepeatCondition),
}

/// A custom action of the menu.
#[derive(Debug, Clone)]
pub struct MenuAction {
    /// Visible iff one condition holds; empty means always visible.
    pub condition: Vec<MenuCondition>,
    /// Lua script run by the action (`@file` syntax supported).
    pub command: String,
    /// Alias shown in the second column of the menu.
    pub alias: Option<String>,
    pub strategy: MenuStrategy,
    /// Whether queued executions need a non-empty destination.
    pub requires_dest: bool,
    /// Overrides the strategy's closing behavior.
    pub close: Option<bool>,
}

/// Whether a condition is a repeat condition over `scope`, strict if `strict_only`.
pub open spec fn is_repeat_over(c: MenuCondition, scope: SelectedCondition, strict_only: bool) -> bool {
    match c {
        MenuCondition::Repeat(r) => r.selected == scope && (!strict_only || r.strict),
        MenuCondition::Sequence(_) => false,
    }
}

/// Whether some condition of `cs` is a repeat condition over `scope`.
pub open spec fn any_repeat_over(cs: Seq<MenuCondition>, scope: SelectedCondition, strict_only: bool) -> bool {
    exists|i: int| 0 <= i < cs.len() && is_repeat_over(#[trigger] cs[i], scope, strict_only)
}

/// The paths an action targets.
pub open spec fn resolve_targets_spec(
    cs: Seq<MenuCondition>,
    selected: Seq<String>,
    fallback: String,
    cursor_disabled: bool,
    cwd: Option<String>,
    nav_cwd: Option<String>,
) -> Seq<String> {
    if any_repeat_over(cs, SelectedCondition::Cwd, true) {
        match nav_cwd {
            Some(p) => seq![p],
            None => seq![fallback],
        }
    } else if any_repeat_over(cs, SelectedCondition::Cwd, false) {
        match cwd {
            Some(p) => seq![p],
            None => seq![fallback],
        }
    } else if any_repeat_over(cs, SelectedCondition::Active, false) && selected.len() == 0
        && cursor_disabled {
        match cwd {
            Some(p) => seq![p],
            None => seq![fallback],
        }
    } else if selected.len() == 0 {
        seq![fallback]
    } else {
        selected
    }
}

/// Targets by scope: an action with a strict `Cwd` repeat condition
/// targets the Nav directory; one with a non-strict `Cwd` repeat condition
/// (and no strict one) targets the current directory, whatever the Nav
/// directory; either falls back to `fallback` without that directory. An
/// action without a `Cwd` or `Active` repeat targets the selection, or the
/// fallback when nothing is selected.
pub proof fn lemma_targets_by_scope(
    cs: Seq<MenuCondition>,
    selected: Seq<String>,
    fallback: String,
    cursor_disabled: bool,
    cwd: Option<String>,
    nav_cwd: Option<String>,
)
    ensures
        (exists|i: int| 0 <= i < cs.len() && (#[trigger] cs[i] matches MenuCondition::Repeat(r)
            && r.selected == SelectedCondition::Cwd && r.strict)) ==> resolve_targets_spec(
            cs,
            selected,
            fallback,
            cursor_disabled,
            cwd,
            nav_cwd,
        ) == seq![
            match nav_cwd {
                Some(p) => p,
                None => fallback,
            },
        ],
        (forall|i: int| 0 <= i < cs.len() ==> !(#[trigger] cs[i] matches MenuCondition::Repeat(r)
            && r.selected == SelectedCondition::Cwd && r.strict)) && (exists|i: int| 0 <= i < cs.len()
            && (#[trigger] cs[i] matches MenuCondition::Repeat(r) && r.selected == SelectedCondition::Cwd))
            ==> resolve_targets_spec(cs, selected, fallback, cursor_disabled, cwd, nav_cwd) == seq![
            match cwd {
                Some(p) => p,
                None => fallback,
            },
        ],
        (forall|i: int| 0 <= i < cs.len() ==> !(#[trigger] cs[i] matches MenuCondition::Repeat(r) && (r.selected
            == SelectedCondition::Cwd || r.selected == SelectedCondition::Active))) ==> resolve_targets_spec(
            cs,
            selected,
            fallback,
            cursor_disabled,
            cwd,
            nav_cwd,
        ) == if selected.len() == 0 {
            seq![fallback]
        } else {
            selected
        },
{
    if exists|i: int| 0 <= i < cs.len() && (#[trigger] cs[i] matches MenuCondition::Repeat(r)
        && r.selected == SelectedCondition::Cwd && r.strict) {
        let i = choose|i: int| 0 <= i < cs.len() && (#[trigger] cs[i] matches MenuCondition::Repeat(r)
            && r.selected == SelectedCondition::Cwd && r.strict);
        assert(is_repeat_over(cs[i], SelectedCondition::Cwd, true));
    }
    if exists|i: int| 0 <= i < cs.len() && (#[trigger] cs[i] matches MenuCondition::Repeat(r)
        && r.selected == SelectedCondition::Cwd) {
        let i = choose|i: int| 0 <= i < cs.len() && (#[trigger] cs[i] matches MenuCondition::Repeat(r)
            && r.selected == SelectedCondition::Cwd);
        assert(is_repeat_over(cs[i], SelectedCondition::Cwd, false));
    }
}

/// An `Active` scope without a `Cwd` one targets the current directory
/// (else the fallback) when nothing is selected and the cursor is disabled,
/// and otherwise the selection, or the fallback when nothing is selected.
pub proof fn lemma_active_scope_targets(
    cs: Seq<MenuCondition>,
    selected: Seq<String>,
    fallback: String,
    cursor_disabled: bool,
    cwd: Option<String>,
    nav_cwd: Option<String>,
)
    requires
        forall|i: int| 0 <= i < cs.len() ==> !(#[trigger] cs[i] matches MenuCondition::Repeat(r)
            && r.selected == SelectedCondition::Cwd),
        exists|i: int| 0 <= i < cs.len() && (#[trigger] cs[i] matches MenuCondition::Repeat(r)
            && r.selected == SelectedCondition::Active),
    ensures
        resolve_targets_spec(cs, selected, fallback, cursor_disabled, cwd, nav_cwd) == if selected.len() == 0
            && cursor_disabled {
            seq![
                match cwd {
                    Some(p) => p,
                    None => fallback,
                },
            ]
        } else if selected.len() == 0 {
            seq![fallback]
        } else {
            selected
        },
{
    let i = choose|i: int| 0 <= i < cs.len() && (#[trigger] cs[i] matches MenuCondition::Repeat(r)
        && r.selected == SelectedCondition::Active);
    assert(is_repeat_over(cs[i], SelectedCondition::Active, false));
}

/// Whether some condition of `cs` is a repeat condition over `scope`.
fn has_repeat_over(cs: &Vec<MenuCondition>, scope: SelectedCondition, strict_only: bool) -> (b: bool)
    ensures
        b == any_repeat_over(cs@, scope, strict_only),
{
    let mut i: usize = 0;
    while i < cs.len()
        invariant
            i <= cs.len(),
            forall|j: int| 0 <= j < i ==> !is_repeat_over(#[trigger] cs@[j], scope, strict_only),
        decreases cs.len() - i,
    {
        match &cs[i] {
            MenuCondition::Repeat(r) => {
                if r.selected == scope && (!strict_only || r.strict) {
                    assert(is_repeat_over(cs@[i as int], scope, strict_only));
                    return true;
                }
            },
            MenuCondition::Sequence(_) => {},
        }
        i = i + 1;
    }
    false
}

/// A one-element vector.
fn single(p: String) -> (v: Vec<String>)
    ensures
        v@ == seq![p],
{
    let mut v = Vec::new();
    v.push(p);
    v
}

impl MenuAction {
    /// Whether choosing the action closes the menu: `close` when set,
    /// otherwise whether the strategy executes (not queueing).
    pub fn closes(&self) -> (b: bool)
        ensures
            b == match self.close {
                Some(c) => c,
                None => self.strategy is Execute || self.strategy is ExecuteSilent
                    || self.strategy is ExecPaged,
            },
    {
        match self.close {
            Some(c) => c,
            None => match self.strategy {
                MenuStrategy::Execute | MenuStrategy::ExecuteSilent | MenuStrategy::ExecPaged => true,
                _ => false,
            },
        }
    }

    /// Target resolution by the action's condition scopes: a strict `Cwd`
    /// scope targets the Nav directory, a `Cwd` scope the current
    /// directory, an `Active` scope with nothing selected and the cursor
    /// disabled the current directory; otherwise the selection, or the
    /// fallback when nothing is selected.
    pub fn resolve_targets(
        &self,
        selected: Vec<String>,
        fallback_target: String,
        cursor_disabled: bool,
        cwd: Option<String>,
        nav_cwd: Option<String>,
    ) -> (res: Vec<String>)
        ensures
            res@ == resolve_targets_spec(
                self.condition@,
                selected@,
                fallback_target,
                cursor_disabled,
                cwd,
                nav_cwd,
            ),
    {
        if has_repeat_over(&self.condition, SelectedCondition::Cwd, true) {
            match nav_cwd {
                Some(p) => single(p),
                None => single(fallback_target),
            }
        } else if has_repeat_over(&self.condition, SelectedCondition::Cwd, false) {
            match cwd {
                Some(p) => single(p),
                None => single(fallback_target),
            }
        } else if has_repeat_over(&self.condition, SelectedCondition::Active, false)
            && selected.len() == 0 && cursor_disabled {
            match cwd {
                Some(p) => single(p),
                None => single(fallback_target),
            }
        } else if selected.len() == 0 {
            single(fallback_target)
        } else {
            selected
        }
    }
}

/// The entries of an action map: key and action, in insertion order.
pub uninterp spec fn action_entries(m: IndexMap<String, MenuAction>) -> Seq<(Seq<char>, MenuAction)>;

/// `IndexMap::new`.
#[verifier::external_body]
fn action_map_new() -> (m: IndexMap<String, MenuAction>)
    ensures
        action_entries(m) == Seq::<(Seq<char>, MenuAction)>::empty(),
{
    IndexMap::new()
}

/// `IndexMap::get`: the action stored under `key`.
#[verifier::external_body]
fn action_map_get<'a>(m: &'a IndexMap<String, MenuAction>, key: &str) -> (r: Option<&'a MenuAction>)
    ensures
        match r {
            Some(a) => {
                let i = entry_index(action_entries(*m), key@);
                i >= 0 && action_entries(*m)[i].1 == *a
            },
            None => entry_index(action_entries(*m), key@) < 0,
        },
{
    m.get(key)
}

/// `IndexMap::insert`: an existing key keeps its place and takes the new
/// action; a new key goes last.
#[verifier::external_body]
fn action_map_insert(m: &mut IndexMap<String, MenuAction>, key: String, action: MenuAction) -> (r:
    Option<MenuAction>)
    ensures
        action_entries(*final(m)) == entries_insert(action_entries(*old(m)), key@, action),
        r is Some <==> entry_index(action_entries(*old(m)), key@) >= 0,
{
    m.insert(key, action)
}

/// `IndexMap::len`.
#[verifier::external_body]
fn action_map_len(m: &IndexMap<String, MenuAction>) -> (n: usize)
    ensures
        n == action_entries(*m).len(),
{
    m.len()
}

/// The custom actions, keyed by name; insertion order is the menu order.
#[derive(Debug)]
pub struct MenuActions {
    pub inner: IndexMap<String, MenuAction>,
}

impl MenuActions {
    /// The entries, in menu order.
    pub open spec fn entries(&self) -> Seq<(Seq<char>, MenuAction)> {
        action_entries(self.inner)
    }

    /// Whether an action is stored under `key`.
    pub open spec fn has_key(&self, key: Seq<char>) -> bool {
        entry_index(self.entries(), key) >= 0
    }

    /// No actions.
    pub fn new() -> (m: Self)
        ensures
            m.entries() == Seq::<(Seq<char>, MenuAction)>::empty(),
    {
        MenuActions { inner: action_map_new() }
    }

    /// Number of actions.
    pub fn len(&self) -> (n: usize)
        ensures
            n == self.entries().len(),
    {
        action_map_len(&self.inner)
    }

    /// The action stored under `key`.
    pub fn get(&self, key: &str) -> (r: Option<&MenuAction>)
        ensures
            match r {
                Some(a) => self.has_key(key@) && self.entries()[entry_index(self.entries(), key@)].1 == *a,
                None => !self.has_key(key@),
            },
    {
        action_map_get(&self.inner, key)
    }

    /// Whether an action is stored under `key`.
    pub fn contains_key(&self, key: &str) -> (b: bool)
        ensures
            b == self.has_key(key@),
    {
        action_map_get(&self.inner, key).is_some()
    }

    /// Stores `action` under `key`: an existing key keeps its place.
    pub fn insert(&mut self, key: String, action: MenuAction) -> (r: Option<MenuAction>)
        ensures
            final(self).entries() == entries_insert(old(self).entries(), key@, action),
            r is Some <==> old(self).has_key(key@),
    {
        action_map_insert(&mut self.inner, key, action)
    }
}

/// `IndexMap::into_iter`, collected: the entries in insertion order.
#[verifier::external_body]
fn action_map_into_entries(m: IndexMap<String, MenuAction>) -> (v: Vec<(String, MenuAction)>)
    ensures
        entries_view(v@) == action_entries(m),
{
    m.into_iter().collect()
}

/// Owned entries seen by their keys' characters.
pub open spec fn entries_view(v: Seq<(String, MenuAction)>) -> Seq<(Seq<char>, MenuAction)> {
    v.map_values(|e: (String, MenuAction)| (e.0@, e.1))
}

/// The entries of a map built by inserting `new` in order into `s`.
pub open spec fn insert_all(s: Seq<(Seq<char>, MenuAction)>, new: Seq<(Seq<char>, MenuAction)>) -> Seq<
    (Seq<char>, MenuAction),
>
    decreases new.len(),
{
    if new.len() == 0 {
        s
    } else {
        entries_insert(insert_all(s, new.drop_last()), new.last().0, new.last().1)
    }
}

/// Whether some entry of `entries` has key `key`.
pub open spec fn has_entry(entries: Seq<(Seq<char>, MenuAction)>, key: Seq<char>) -> bool {
    entry_index(entries, key) >= 0
}

/// Whether entry `i` of `new` repeats a key of `old` or of an earlier entry of `new`.
pub open spec fn clashes_at(old: Seq<(Seq<char>, MenuAction)>, new: Seq<(Seq<char>, MenuAction)>, i: int) -> bool {
    has_entry(old + new.take(i), new[i].0)
}

/// Why a set of menu actions was refused.
#[derive(Debug, Clone, PartialEq, Eq)]
pub enum MenuConfigError {
    /// An action is defined under a reserved key.
    Reserved(String),
    /// A key is defined a second time.
    Duplicate(String),
}

impl MenuActions {
    /// The actions of one configuration table, in its order. The table is
    /// refused, naming the first such key, when a key is reserved.
    pub fn from_entries(entries: Vec<(String, MenuAction)>) -> (r: Result<MenuActions, MenuConfigError>)
        ensures
            match r {
                Ok(m) => {
                    &&& forall|i: int| 0 <= i < entries@.len() ==> !reserved_key_spec(#[trigger] entries@[i].0@)
                    &&& m.entries() == insert_all(Seq::empty(), entries_view(entries@))
                },
                Err(e) => exists|i: int|
                    0 <= i < entries@.len() && reserved_key_spec(#[trigger] entries@[i].0@) && (forall|j: int|
                        0 <= j < i ==> !reserved_key_spec(#[trigger] entries@[j].0@)) && e
                        == MenuConfigError::Reserved(entries@[i].0),
            },
    {
        let mut i: usize = 0;
        while i < entries.len()
            invariant
                i <= entries@.len(),
                forall|j: int| 0 <= j < i ==> !reserved_key_spec(#[trigger] entries@[j].0@),
            decreases entries@.len() - i,
        {
            if is_reserved_action_key(entries[i].0.as_str()) {
                let k = entries[i].0.clone();
                return Err(MenuConfigError::Reserved(k));
            }
            i = i + 1;
        }
        let ghost all = entries_view(entries@);
        let mut m = MenuActions::new();
        let mut rest = entries;
        let mut taken: usize = 0;
        let n = rest.len();
        while rest.len() > 0
            invariant
                n == all.len(),
                taken + rest@.len() == n,
                entries_view(rest@) == all.skip(taken as int),
                m.entries() == insert_all(Seq::empty(), all.take(taken as int)),
            decreases rest@.len(),
        {
            let ghost before = rest@;
            let (key, action) = rest.remove(0);
            proof {
                assert(all[taken as int] == entries_view(before)[0]);
                assert forall|k: int| 0 <= k < rest@.len() implies #[trigger] entries_view(rest@)[k]
                    == all.skip(taken + 1)[k] by {
                    assert(rest@[k] == before[k + 1]);
                    assert(entries_view(before)[k + 1] == all.skip(taken as int)[k + 1]);
                }
                assert(entries_view(rest@) =~= all.skip(taken + 1));
                assert(all.take(taken + 1).drop_last() =~= all.take(taken as int));
            }
            m.insert(key, action);
            taken = taken + 1;
        }
        assert(all.take(n as int) =~= all);
        Ok(m)
    }
}

/// Merge the actions of one more configuration file into `merged`, in
/// their order. A key that `merged` already holds is refused, naming the
/// key; the entries before it stay merged.
pub fn merge_actions(merged: &mut MenuActions, actions: MenuActions) -> (r: Result<(), MenuConfigError>)
    ensures
        r is Ok ==> forall|i: int|
            0 <= i < actions.entries().len() ==> !clashes_at(old(merged).entries(), actions.entries(), i),
        r is Ok ==> final(merged).entries() == old(merged).entries() + actions.entries(),
        r is Err ==> exists|i: int|
            0 <= i < actions.entries().len() && clashes_at(old(merged).entries(), actions.entries(), i)
                && (forall|j: int| 0 <= j < i ==> !clashes_at(old(merged).entries(), actions.entries(), j))
                && r->Err_0 is Duplicate && r->Err_0->Duplicate_0@ == actions.entries()[i].0
                && final(merged).entries() == old(merged).entries() + actions.entries().take(i),
{
    let ghost new = actions.entries();
    let ghost base = merged.entries();
    let mut rest = action_map_into_entries(actions.inner);
    let n = rest.len();
    let mut taken: usize = 0;
    while rest.len() > 0
        invariant
            n == new.len(),
            new == actions.entries(),
            base == old(merged).entries(),
            taken + rest@.len() == n,
            entries_view(rest@) == new.skip(taken as int),
            merged.entries() == base + new.take(taken as int),
            forall|j: int| 0 <= j < taken ==> !clashes_at(base, new, j),
        decreases rest@.len(),
    {
        let ghost before = rest@;
        let (key, action) = rest.remove(0);
        proof {
            assert(new[taken as int] == entries_view(before)[0]);
            assert forall|k: int| 0 <= k < rest@.len() implies #[trigger] entries_view(rest@)[k]
                == new.skip(taken + 1)[k] by {
                assert(rest@[k] == before[k + 1]);
                assert(entries_view(before)[k + 1] == new.skip(taken as int)[k + 1]);
            }
            assert(entries_view(rest@) =~= new.skip(taken + 1));
        }
        if merged.contains_key(key.as_str()) {
            assert(clashes_at(base, new, taken as int));
            return Err(MenuConfigError::Duplicate(key));
        }
        merged.insert(key, action);
        proof {
            assert(base + new.take(taken + 1) =~= (base + new.take(taken as int)).push(new[taken as int]));
        }
        taken = taken + 1;
    }
    assert(new.take(n as int) =~= new);
    Ok(())
}

/// Merging keeps the keys unique: when `merged` holds no key twice and a
/// merge of `new` into it succeeds, the result holds no key twice either.
pub proof fn lemma_merge_keeps_keys_distinct(merged: Seq<(Seq<char>, MenuAction)>, new: Seq<(Seq<char>, MenuAction)>)
    requires
        keys_distinct(merged),
        forall|i: int| 0 <= i < new.len() ==> !clashes_at(merged, new, i),
    ensures
        keys_distinct(merged + new),
{
    let all = merged + new;
    assert forall|i: int, j: int| 0 <= i < j < all.len() implies all[i].0 != all[j].0 by {
        if j >= merged.len() {
            let jj = j - merged.len();
            let seen = merged + new.take(jj);
            assert(!clashes_at(merged, new, jj));
            crate::text::lemma_first_index(seen, key_is::<MenuAction>(new[jj].0));
            assert(seen[i] == all[i]);
            assert(!key_is::<MenuAction>(new[jj].0)(seen[i]));
        }
    }
}

/// The menu action keys reserved for the builtin queue kinds and the queue
/// selectors, compared case-insensitively; the empty key is reserved too.
pub open spec fn reserved_key_spec(k: Seq<char>) -> bool {
    ||| eq_ignore_ascii_case(k, "copy"@)
    ||| eq_ignore_ascii_case(k, "move"@)
    ||| eq_ignore_ascii_case(k, "symlink"@)
    ||| eq_ignore_ascii_case(k, "none"@)
    ||| eq_ignore_ascii_case(k, "all"@)
    ||| eq_ignore_ascii_case(k, "builtins"@)
    ||| eq_ignore_ascii_case(k, "first"@)
    ||| eq_ignore_ascii_case(k, "last"@)
    ||| eq_ignore_ascii_case(k, "default"@)
    ||| k.len() == 0
}

/// Whether `key` may not name a menu action.
pub fn is_reserved_action_key(key: &str) -> (b: bool)
    ensures
        b == reserved_key_spec(key@),
{
    let k = to_chars(key);
    if k.len() == 0 {
        return true;
    }
    let c0 = chars_eq_ignore_ascii_case(&k, &to_chars("copy"));
    let c1 = chars_eq_ignore_ascii_case(&k, &to_chars("move"));
    let c2 = chars_eq_ignore_ascii_case(&k, &to_chars("symlink"));
    let c3 = chars_eq_ignore_ascii_case(&k, &to_chars("none"));
    let c4 = chars_eq_ignore_ascii_case(&k, &to_chars("all"));
    let c5 = chars_eq_ignore_ascii_case(&k, &to_chars("builtins"));
    let c6 = chars_eq_ignore_ascii_case(&k, &to_chars("first"));
    let c7 = chars_eq_ignore_ascii_case(&k, &to_chars("last"));
    let c8 = chars_eq_ignore_ascii_case(&k, &to_chars("default"));
    c0 || c1 || c2 || c3 || c4 || c5 || c6 || c7 || c8
}

} // verus!

verus! {

/// The rule paired with each path it is evaluated against.
pub open spec fn pair_with(paths: Seq<String>, rule: FileRule) -> Seq<(String, FileRule)> {
    paths.map_values(|p: String| (p, rule))
}

/// The (path, rule) checks a condition makes against the picker state, all
/// of which must pass; `None` when the state rules the condition out.
///
/// A sequence pairs rule `i` with the `i`-th selected item and needs as many
/// selected items as rules. A repeated rule is checked against: the cursor
/// item (`Cursor`: the cursor enabled, and nothing selected when strict); the
/// navigation directory (strict `Cwd`) or the current directory while the
/// cursor is disabled (`Cwd`); every selected item, exactly `n` of them when
/// strict and at least `n` otherwise (`Selections(n)`); or the active target:
/// the selection, else the cursor item, else (cursor disabled) the current
/// directory, exactly one path when strict (`Active`).
pub open spec fn condition_checks(
    c: MenuCondition,
    selected: Seq<String>,
    cursor: Option<String>,
    cursor_disabled: bool,
    cwd: Option<String>,
    nav_cwd: Option<String>,
) -> Option<Seq<(String, FileRule)>> {
    match c {
        MenuCondition::Sequence(rules) => if selected.len() == rules@.len() {
            Some(Seq::new(selected.len(), |i: int| (selected[i], rules@[i])))
        } else {
            None
        },
        MenuCondition::Repeat(r) => match r.selected {
            SelectedCondition::Cursor => if cursor_disabled || (r.strict && selected.len() > 0) {
                None
            } else {
                match cursor {
                    Some(p) => Some(seq![(p, r.condition)]),
                    None => None,
                }
            },
            SelectedCondition::Cwd => if r.strict {
                match nav_cwd {
                    Some(p) => Some(seq![(p, r.condition)]),
                    None => None,
                }
            } else if cursor_disabled {
                match cwd {
                    Some(p) => Some(seq![(p, r.condition)]),
                    None => None,
                }
            } else {
                None
            },
            SelectedCondition::Selections(n) => if (r.strict && selected.len() != n) || (!r.strict
                && selected.len() < n) {
                None
            } else {
                Some(pair_with(selected, r.condition))
            },
            SelectedCondition::Active => {
                let targets = if selected.len() > 0 {
                    Some(selected)
                } else if !cursor_disabled {
                    match cursor {
                        Some(p) => Some(seq![p]),
                        None => None,
                    }
                } else {
                    match cwd {
                        Some(p) => Some(seq![p]),
                        None => None,
                    }
                };
                match targets {
                    Some(t) => if r.strict && t.len() != 1 {
                        None
                    } else {
                        Some(pair_with(t, r.condition))
                    },
                    None => None,
                }
            },
        },
    }
}

/// Whether `verdict` answered `true` for every check of `checks`.
pub open spec fn all_passed<F: Fn(&String, &FileRule) -> bool>(verdict: F, checks: Seq<(String, FileRule)>) -> bool {
    forall|k: int| 0 <= k < checks.len() ==> call_ensures(verdict, (&checks[k].0, &checks[k].1), true)
}

/// Whether `verdict` answered `false` for some check of `checks`.
pub open spec fn some_failed<F: Fn(&String, &FileRule) -> bool>(verdict: F, checks: Seq<(String, FileRule)>) -> bool {
    exists|k: int| 0 <= k < checks.len() && call_ensures(verdict, (&checks[k].0, &checks[k].1), false)
}

/// Runs `verdict` on each check in order, stopping at the first `false`.
fn run_checks<F: Fn(&String, &FileRule) -> bool>(checks: &Vec<(String, FileRule)>, verdict: &F) -> (b: bool)
    requires
        forall|p: &String, r: &FileRule| verdict.requires((p, r)),
    ensures
        b ==> all_passed(*verdict, checks@),
        !b ==> some_failed(*verdict, checks@),
{
    let mut i: usize = 0;
    while i < checks.len()
        invariant
            i <= checks@.len(),
            forall|p: &String, r: &FileRule| verdict.requires((p, r)),
            forall|k: int| 0 <= k < i ==> call_ensures(*verdict, (&checks@[k].0, &checks@[k].1), true),
        decreases checks@.len() - i,
    {
        let ok = verdict(&checks[i].0, &checks[i].1);
        if !ok {
            assert(call_ensures(*verdict, (&checks@[i as int].0, &checks@[i as int].1), false));
            return false;
        }
        i = i + 1;
    }
    true
}

/// A one-check list.
fn one_check(p: &String, rule: &FileRule) -> (v: Vec<(String, FileRule)>)
    ensures
        v@.len() == 1,
        v@[0].0@ == p@,
        v@[0].1.rule@ == rule.rule@,
{
    let mut v: Vec<(String, FileRule)> = Vec::new();
    v.push((p.clone(), FileRule { rule: rule.rule.clone() }));
    v
}

impl MenuCondition {
    /// The checks of the condition against the picker state (see
    /// [`condition_checks`]), in order.
    pub fn checks(
        &self,
        selected: &Vec<String>,
        cursor: Option<&String>,
        cursor_disabled: bool,
        cwd: Option<&String>,
        nav_cwd: Option<&String>,
    ) -> (r: Option<Vec<(String, FileRule)>>)
        ensures
            match condition_checks(
                *self,
                selected@,
                owned_opt(cursor),
                cursor_disabled,
                owned_opt(cwd),
                owned_opt(nav_cwd),
            ) {
                Some(c) => r matches Some(v) && checks_view(v@) == checks_view(c),
                None => r is None,
            },
    {
        match self {
            MenuCondition::Sequence(rules) => {
                if selected.len() != rules.len() {
                    return None;
                }
                let mut v: Vec<(String, FileRule)> = Vec::new();
                let mut i: usize = 0;
                while i < selected.len()
                    invariant
                        selected@.len() == rules@.len(),
                        i <= selected@.len(),
                        v@.len() == i,
                        forall|k: int| 0 <= k < i ==> #[trigger] v@[k].0@ == selected@[k]@ && v@[k].1.rule@
                            == rules@[k].rule@,
                    decreases selected@.len() - i,
                {
                    let path = selected[i].clone();
                    let text = rules[i].rule.clone();
                    let ghost before = v@;
                    v.push((path, FileRule { rule: text }));
                    assert forall|k: int| 0 <= k < i + 1 implies #[trigger] v@[k].0@ == selected@[k]@
                        && v@[k].1.rule@ == rules@[k].rule@ by {
                        if k < i {
                            assert(v@[k] == before[k]);
                        }
                    }
                    i = i + 1;
                }
                assert(checks_view(v@) =~= checks_view(
                    Seq::new(selected@.len(), |i: int| (selected@[i], rules@[i])),
                ));
                Some(v)
            },
            MenuCondition::Repeat(r) => {
                let rule = &r.condition;
                match r.selected {
                    SelectedCondition::Cursor => {
                        if cursor_disabled || (r.strict && selected.len() > 0) {
                            return None;
                        }
                        match cursor {
                            Some(p) => {
                                let v = one_check(p, rule);
                                assert(checks_view(v@) =~= checks_view(seq![(*p, *rule)]));
                                Some(v)
                            },
                            None => None,
                        }
                    },
                    SelectedCondition::Cwd => {
                        let target = if r.strict {
                            nav_cwd
                        } else if cursor_disabled {
                            cwd
                        } else {
                            None
                        };
                        match target {
                            Some(p) => {
                                let v = one_check(p, rule);
                                assert(checks_view(v@) =~= checks_view(seq![(*p, *rule)]));
                                Some(v)
                            },
                            None => None,
                        }
                    },
                    SelectedCondition::Selections(n) => {
                        if (r.strict && selected.len() != n) || (!r.strict && selected.len() < n) {
                            return None;
                        }
                        let v = pair_all(selected, rule);
                        Some(v)
                    },
                    SelectedCondition::Active => {
                        if selected.len() > 0 {
                            if r.strict && selected.len() != 1 {
                                return None;
                            }
                            Some(pair_all(selected, rule))
                        } else {
                            let target = if !cursor_disabled {
                                cursor
                            } else {
                                cwd
                            };
                            match target {
                                Some(p) => {
                                    let v = one_check(p, rule);
                                    assert(checks_view(v@) =~= checks_view(pair_with(seq![*p], *rule)));
                                    Some(v)
                                },
                                None => None,
                            }
                        }
                    },
                }
            },
        }
    }
}

/// The value an optional reference points to.
pub open spec fn owned_opt(o: Option<&String>) -> Option<String> {
    match o {
        Some(p) => Some(*p),
        None => None,
    }
}

/// The checks as text: each path with its rule's text.
pub open spec fn checks_view(c: Seq<(String, FileRule)>) -> Seq<(Seq<char>, Seq<char>)> {
    c.map_values(|e: (String, FileRule)| (e.0@, e.1.rule@))
}

/// Every selected path paired with `rule`.
fn pair_all(selected: &Vec<String>, rule: &FileRule) -> (v: Vec<(String, FileRule)>)
    ensures
        checks_view(v@) == checks_view(pair_with(selected@, *rule)),
{
    let mut v: Vec<(String, FileRule)> = Vec::new();
    let mut i: usize = 0;
    while i < selected.len()
        invariant
            i <= selected@.len(),
            v@.len() == i,
            forall|k: int| 0 <= k < i ==> #[trigger] v@[k].0@ == selected@[k]@ && v@[k].1.rule@ == rule.rule@,
        decreases selected@.len() - i,
    {
        let path = selected[i].clone();
        let text = rule.rule.clone();
        let ghost before = v@;
        v.push((path, FileRule { rule: text }));
        assert forall|k: int| 0 <= k < i + 1 implies #[trigger] v@[k].0@ == selected@[k]@ && v@[k].1.rule@
            == rule.rule@ by {
            if k < i {
                assert(v@[k] == before[k]);
            }
        }
        i = i + 1;
    }
    assert(checks_view(v@) =~= checks_view(pair_with(selected@, *rule)));
    v
}

} // verus!

verus! {

/// Whether `verdict` gave the answer `ans` for a path and a rule with the
/// texts of the check `e`.
pub open spec fn answered<F: Fn(&String, &FileRule) -> bool>(verdict: F, e: (Seq<char>, Seq<char>), ans: bool) -> bool {
    exists|p: String, r: FileRule|
        #![trigger call_ensures(verdict, (&p, &r), ans)]
        p@ == e.0 && r.rule@ == e.1 && call_ensures(verdict, (&p, &r), ans)
}

/// Whether `verdict` answered `true` for each check of `cv`.
pub open spec fn passed_view<F: Fn(&String, &FileRule) -> bool>(verdict: F, cv: Seq<(Seq<char>, Seq<char>)>) -> bool {
    forall|k: int| 0 <= k < cv.len() ==> answered(verdict, #[trigger] cv[k], true)
}

/// Whether `verdict` answered `false` for some check of `cv`.
pub open spec fn failed_view<F: Fn(&String, &FileRule) -> bool>(verdict: F, cv: Seq<(Seq<char>, Seq<char>)>) -> bool {
    exists|k: int| 0 <= k < cv.len() && answered(verdict, #[trigger] cv[k], false)
}

/// The verdict of a condition: its checks exist and all passed (`true`),
/// or there are none to make or one failed (`false`).
pub open spec fn condition_verdict<F: Fn(&String, &FileRule) -> bool>(
    verdict: F,
    checks: Option<Seq<(String, FileRule)>>,
    b: bool,
) -> bool {
    match checks {
        None => !b,
        Some(c) => (b ==> passed_view(verdict, checks_view(c))) && (!b ==> failed_view(
            verdict,
            checks_view(c),
        )),
    }
}

impl MenuCondition {
    /// Whether the condition holds against the picker state: its checks can
    /// be made and `verdict` (the file rule engine) passes each of them, in
    /// order, stopping at the first failure.
    pub fn passes<F: Fn(&String, &FileRule) -> bool>(
        &self,
        selected: &Vec<String>,
        cursor: Option<&String>,
        cursor_disabled: bool,
        cwd: Option<&String>,
        nav_cwd: Option<&String>,
        verdict: &F,
    ) -> (b: bool)
        requires
            forall|p: &String, r: &FileRule| verdict.requires((p, r)),
        ensures
            condition_verdict(
                *verdict,
                condition_checks(
                    *self,
                    selected@,
                    owned_opt(cursor),
                    cursor_disabled,
                    owned_opt(cwd),
                    owned_opt(nav_cwd),
                ),
                b,
            ),
    {
        match self.checks(selected, cursor, cursor_disabled, cwd, nav_cwd) {
            None => false,
            Some(v) => {
                let ok = run_checks(&v, verdict);
                proof {
                    let cv = checks_view(v@);
                    if ok {
                        assert forall|k: int| 0 <= k < cv.len() implies answered(*verdict, #[trigger] cv[k], true) by {
                            assert(call_ensures(*verdict, (&v@[k].0, &v@[k].1), true));
                            assert(cv[k] == (v@[k].0@, v@[k].1.rule@));
                        }
                    } else {
                        let k = choose|k: int|
                            0 <= k < v@.len() && call_ensures(*verdict, (&v@[k].0, &v@[k].1), false);
                        assert(cv[k] == (v@[k].0@, v@[k].1.rule@));
                        assert(answered(*verdict, cv[k], false));
                    }
                }
                ok
            },
        }
    }
}

/// Whether an action with `conditions` is visible: it has no condition, or
/// one of them holds (tried in order, stopping at the first that holds).
pub fn condition_passes<F: Fn(&String, &FileRule) -> bool>(
    conditions: &Vec<MenuCondition>,
    selected: &Vec<String>,
    cursor: Option<&String>,
    cursor_disabled: bool,
    cwd: Option<&String>,
    nav_cwd: Option<&String>,
    verdict: &F,
) -> (b: bool)
    requires
        forall|p: &String, r: &FileRule| verdict.requires((p, r)),
    ensures
        conditions@.len() == 0 ==> b,
        conditions@.len() > 0 && b ==> exists|i: int|
            0 <= i < conditions@.len() && condition_verdict(
                *verdict,
                condition_checks(
                    conditions@[i],
                    selected@,
                    owned_opt(cursor),
                    cursor_disabled,
                    owned_opt(cwd),
                    owned_opt(nav_cwd),
                ),
                true,
            ),
        !b ==> conditions@.len() > 0 && forall|i: int|
            0 <= i < conditions@.len() ==> condition_verdict(
                *verdict,
                condition_checks(
                    conditions@[i],
                    selected@,
                    owned_opt(cursor),
                    cursor_disabled,
                    owned_opt(cwd),
                    owned_opt(nav_cwd),
                ),
                false,
            ),
{
    if conditions.len() == 0 {
        return true;
    }
    let ghost cur = owned_opt(cursor);
    let ghost cw = owned_opt(cwd);
    let ghost nc = owned_opt(nav_cwd);
    let mut i: usize = 0;
    while i < conditions.len()
        invariant
            i <= conditions@.len(),
            forall|p: &String, r: &FileRule| verdict.requires((p, r)),
            cur == (owned_opt(cursor)),
            cw == (owned_opt(cwd)),
            nc == (owned_opt(nav_cwd)),
            forall|j: int|
                0 <= j < i ==> condition_verdict(
                    *verdict,
                    condition_checks(conditions@[j], selected@, cur, cursor_disabled, cw, nc),
                    false,
                ),
        decreases conditions@.len() - i,
    {
        if conditions[i].passes(selected, cursor, cursor_disabled, cwd, nav_cwd, verdict) {
            assert(condition_verdict(
                *verdict,
                condition_checks(conditions@[i as int], selected@, cur, cursor_disabled, cw, nc),
                true,
            ));
            return true;
        }
        i = i + 1;
    }
    false
}

} // verus!
