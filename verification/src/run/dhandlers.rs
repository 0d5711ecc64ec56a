//! Execution-mode transport of the `Execute*` actions and the output
//! newline policy of command-output copies.

use vstd::prelude::*;
use crate::text::{string_pop, string_push};

verus! {

/// Marker discriminant for command-output copy on the shared
/// silent/async interrupts.
pub const COPY_COMMAND: u8 = 0;

/// Execution mode of the `Execute*` actions, transported as a one-byte
/// discriminant.
#[derive(Debug, Clone, Copy, PartialEq, Eq, Structural)]
pub enum ExecutionMode {
    Normal,
    Paged,
    Tty,
    Detached,
    Silent,
}

/// The discriminant a mode travels as.
pub open spec fn mode_code(m: ExecutionMode) -> u8 {
    match m {
        ExecutionMode::Normal => 0,
        ExecutionMode::Paged => 1,
        ExecutionMode::Tty => 2,
        ExecutionMode::Detached => 3,
        ExecutionMode::Silent => 4,
    }
}

impl ExecutionMode {
    pub fn discriminant(self) -> (d: u8)
        ensures
            d == mode_code(self),
    {
        match self {
            ExecutionMode::Normal => 0,
            ExecutionMode::Paged => 1,
            ExecutionMode::Tty => 2,
            ExecutionMode::Detached => 3,
            ExecutionMode::Silent => 4,
        }
    }

    /// The mode whose discriminant is `d`, if any.
    pub fn from_discriminant(d: u8) -> (res: Option<Self>)
        ensures
            res matches Some(m) ==> mode_code(m) == d,
            res is None <==> d > 4,
    {
        match d {
            0 => Some(ExecutionMode::Normal),
            1 => Some(ExecutionMode::Paged),
            2 => Some(ExecutionMode::Tty),
            3 => Some(ExecutionMode::Detached),
            4 => Some(ExecutionMode::Silent),
            _ => None,
        }
    }

    /// Whether the mode spawns without waiting (`Detached` or `Silent`).
    pub fn is_silent(self) -> (b: bool)
        ensures
            b <==> (self == ExecutionMode::Detached || self == ExecutionMode::Silent),
    {
        match self {
            ExecutionMode::Detached | ExecutionMode::Silent => true,
            _ => false,
        }
    }
}

/// Decoding an encoded mode gives the mode back.
pub proof fn lemma_mode_round_trip(m: ExecutionMode)
    ensures
        mode_code(m) <= 4,
        forall|n: ExecutionMode| mode_code(n) == mode_code(m) ==> n == m,
{
}

/// The text after the newline policy: with trailing newlines disabled, one
/// trailing `\n` (and a `\r` just before it) is removed.
pub open spec fn newline_policy(s: Seq<char>, copy_trailing_newline: bool) -> Seq<char> {
    if !copy_trailing_newline && s.len() > 0 && s.last() == '\n' {
        let t = s.drop_last();
        if t.len() > 0 && t.last() == '\r' {
            t.drop_last()
        } else {
            t
        }
    } else {
        s
    }
}

/// Applies the trailing-newline policy of command-output copies.
pub fn apply_newline_policy(text: &mut String, copy_trailing_newline: bool)
    ensures
        final(text)@ == newline_policy(old(text)@, copy_trailing_newline),
{
    if copy_trailing_newline {
        return;
    }
    match string_pop(text) {
        None => {},
        Some(c) => {
            if c == '\n' {
                match string_pop(text) {
                    None => {},
                    Some(c2) => {
                        if c2 != '\r' {
                            string_push(text, c2);
                            assert(text@ =~= old(text)@.drop_last());
                        }
                    },
                }
            } else {
                string_push(text, c);
                assert(text@ =~= old(text)@);
            }
        },
    }
}

} // verus!
