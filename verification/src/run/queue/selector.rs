//! Queue kinds and the selectors of `ExecuteQueue`/`ClearQueue`.

use vstd::prelude::*;
use vstd::std_specs::cmp::PartialEqSpecImpl;
use vstd::string::*;
use crate::menu::MenuActions;
use crate::text::{chars_eq_ignore_ascii_case, eq_ignore_ascii_case, str_eq, to_chars};

verus! {

/// Whether `k` is one of the builtin kinds, enqueued one row per path.
pub open spec fn is_builtin_kind(k: Seq<char>) -> bool {
    k == "copy"@ || k == "move"@ || k == "symlink"@ || k == "none"@
}

/// Whether `k` is a builtin kind that needs a destination to execute.
pub open spec fn is_dest_kind(k: Seq<char>) -> bool {
    k == "copy"@ || k == "move"@ || k == "symlink"@
}

/// Which selector spelling `s` is: `0` all, `1` builtins, `2` first,
/// `3` last (all ASCII case-insensitive), `4` any other text (a kind).
pub open spec fn selector_word(s: Seq<char>) -> int {
    if eq_ignore_ascii_case(s, "all"@) {
        0
    } else if eq_ignore_ascii_case(s, "builtins"@) {
        1
    } else if eq_ignore_ascii_case(s, "first"@) {
        2
    } else if eq_ignore_ascii_case(s, "last"@) {
        3
    } else {
        4
    }
}

/// Selector over queued operations.
#[derive(Debug, Clone)]
pub enum QueueSelector {
    /// Every queue kind.
    All,
    /// The builtin transfer kinds (`copy`, `move`, `symlink`).
    Builtins,
    /// The first pending row.
    First,
    /// The last pending row.
    Last,
    /// A specific queue kind.
    Kind(String),
}

/// Whether `r` is what the text `s` parses to.
pub open spec fn parsed_as(r: QueueSelector, s: Seq<char>) -> bool {
    match r {
        QueueSelector::All => selector_word(s) == 0,
        QueueSelector::Builtins => selector_word(s) == 1,
        QueueSelector::First => selector_word(s) == 2,
        QueueSelector::Last => selector_word(s) == 3,
        QueueSelector::Kind(k) => selector_word(s) == 4 && k@ == s,
    }
}

/// Selector equality: same variant, and the same kind text for `Kind`.
pub open spec fn selector_eq(a: QueueSelector, b: QueueSelector) -> bool {
    match (a, b) {
        (QueueSelector::All, QueueSelector::All) => true,
        (QueueSelector::Builtins, QueueSelector::Builtins) => true,
        (QueueSelector::First, QueueSelector::First) => true,
        (QueueSelector::Last, QueueSelector::Last) => true,
        (QueueSelector::Kind(x), QueueSelector::Kind(y)) => x@ == y@,
        _ => false,
    }
}

/// The text a selector displays as.
pub open spec fn selector_text(s: QueueSelector) -> Seq<char> {
    match s {
        QueueSelector::All => "All"@,
        QueueSelector::Builtins => "Builtins"@,
        QueueSelector::First => "First"@,
        QueueSelector::Last => "Last"@,
        QueueSelector::Kind(k) => k@,
    }
}

impl PartialEq for QueueSelector {
    fn eq(&self, other: &Self) -> (r: bool) {
        match (self, other) {
            (QueueSelector::All, QueueSelector::All) => true,
            (QueueSelector::Builtins, QueueSelector::Builtins) => true,
            (QueueSelector::First, QueueSelector::First) => true,
            (QueueSelector::Last, QueueSelector::Last) => true,
            (QueueSelector::Kind(x), QueueSelector::Kind(y)) => *x == *y,
            _ => false,
        }
    }
}

impl PartialEqSpecImpl for QueueSelector {
    open spec fn obeys_eq_spec() -> bool {
        true
    }

    open spec fn eq_spec(&self, other: &Self) -> bool {
        selector_eq(*self, *other)
    }
}

impl std::str::FromStr for QueueSelector {
    type Err = String;

    fn from_str(s: &str) -> (r: Result<Self, Self::Err>)
        ensures
            r matches Ok(q) && parsed_as(q, s@),
    {
        Ok(QueueSelector::parse(s))
    }
}

impl QueueSelector {
    /// Parses a selector: the reserved words case-insensitively, any other
    /// text (the empty text too) as a kind, with its case kept.
    pub fn parse(s: &str) -> (r: Self)
        ensures
            parsed_as(r, s@),
    {
        let c = to_chars(s);
        if chars_eq_ignore_ascii_case(&c, &to_chars("all")) {
            QueueSelector::All
        } else if chars_eq_ignore_ascii_case(&c, &to_chars("builtins")) {
            QueueSelector::Builtins
        } else if chars_eq_ignore_ascii_case(&c, &to_chars("first")) {
            QueueSelector::First
        } else if chars_eq_ignore_ascii_case(&c, &to_chars("last")) {
            QueueSelector::Last
        } else {
            QueueSelector::Kind(s.to_owned())
        }
    }

    /// The displayed text: the variant name, or the kind itself.
    pub fn to_string(&self) -> (t: String)
        ensures
            t@ == selector_text(*self),
    {
        match self {
            QueueSelector::All => "All".to_owned(),
            QueueSelector::Builtins => "Builtins".to_owned(),
            QueueSelector::First => "First".to_owned(),
            QueueSelector::Last => "Last".to_owned(),
            QueueSelector::Kind(k) => k.clone(),
        }
    }

    /// The kind of a `Kind` selector.
    pub fn as_kind(&self) -> (r: Option<&str>)
        ensures
            match *self {
                QueueSelector::Kind(k) => r matches Some(x) && x@ == k@,
                _ => r is None,
            },
    {
        match self {
            QueueSelector::Kind(k) => Some(k.as_str()),
            _ => None,
        }
    }
}

/// Whether `kind` can name a queue category: non-empty and not a reserved
/// selector word.
pub open spec fn valid_kind_spec(kind: Seq<char>) -> bool {
    kind.len() > 0 && selector_word(kind) == 4
}

/// Whether a string is a valid queue category (non-empty and not a
/// reserved selector word).
pub fn is_valid_queue_kind(kind: &str) -> (b: bool)
    ensures
        b == valid_kind_spec(kind@),
{
    if kind.is_empty() {
        return false;
    }
    match QueueSelector::parse(kind) {
        QueueSelector::Kind(_) => true,
        _ => false,
    }
}

/// Whether `kind` is a builtin kind.
pub fn is_builtin(kind: &str) -> (b: bool)
    ensures
        b == is_builtin_kind(kind@),
{
    str_eq(kind, "copy") || str_eq(kind, "move") || str_eq(kind, "symlink") || str_eq(kind, "none")
}

/// Whether `kind` is a builtin kind that needs a destination.
pub fn is_dest(kind: &str) -> (b: bool)
    ensures
        b == is_dest_kind(kind@),
{
    str_eq(kind, "copy") || str_eq(kind, "move") || str_eq(kind, "symlink")
}

/// Whether `kind` is accepted at execution: a valid kind that is builtin
/// or names one of `actions`.
pub open spec fn kind_known(kind: Seq<char>, actions: Option<&MenuActions>) -> bool {
    valid_kind_spec(kind) && (is_builtin_kind(kind) || match actions {
        Some(a) => a.has_key(kind),
        None => false,
    })
}

/// Validation shared by execution and the config check: `Ok` for a
/// builtin kind or a key of `actions`; otherwise `Unknown queue kind: <kind>`.
/// `actions` is `None` when no menu actions are loaded, so only the builtin
/// kinds are known then.
pub fn validate_queue_kind(kind: &str, actions: Option<&MenuActions>) -> (r: Result<(), String>)
    ensures
        r is Ok <==> kind_known(kind@, actions),
        r matches Err(e) ==> e@ == "Unknown queue kind: "@ + kind@,
{
    if is_valid_queue_kind(kind) && (is_builtin(kind) || match actions {
        Some(acts) => acts.contains_key(kind),
        None => false,
    }) {
        Ok(())
    } else {
        let mut msg = "Unknown queue kind: ".to_owned();
        msg.append(kind);
        Err(msg)
    }
}

} // verus!

verus! {

/// A selector's displayed text parses back to it (for a kind selector,
/// when its kind is not itself a selector word).
pub proof fn lemma_selector_text_round_trip(s: QueueSelector)
    requires
        s matches QueueSelector::Kind(k) ==> selector_word(k@) == 4,
    ensures
        parsed_as(s, selector_text(s)),
{
    reveal_strlit("All");
    reveal_strlit("all");
    reveal_strlit("Builtins");
    reveal_strlit("builtins");
    reveal_strlit("First");
    reveal_strlit("first");
    reveal_strlit("Last");
    reveal_strlit("last");
    match s {
        QueueSelector::All => {
            assert(eq_ignore_ascii_case("All"@, "all"@));
        },
        QueueSelector::Builtins => {
            assert(eq_ignore_ascii_case("Builtins"@, "builtins"@));
        },
        QueueSelector::First => {
            assert(eq_ignore_ascii_case("First"@, "first"@));
        },
        QueueSelector::Last => {
            assert(eq_ignore_ascii_case("Last"@, "last"@));
        },
        QueueSelector::Kind(_) => {},
    }
}

} // verus!
