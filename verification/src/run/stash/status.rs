//! Progress state of a stashed item: the plain state value and the atomic
//! cell that hands it between the UI thread and the transfer workers.

use std::sync::Arc;
use std::sync::atomic::AtomicU8;
use std::sync::atomic::Ordering;
use vstd::prelude::*;

verus! {

/// Lifecycle of one stashed item.
#[derive(Copy, Clone, Eq, PartialEq, Debug, Structural)]
pub enum StashItemState {
    Pending,
    PendingErr,
    Started,
    CompleteOk,
    CompleteErr,
}

/// The byte a state is stored as.
pub open spec fn stash_state_code(s: StashItemState) -> u8 {
    match s {
        StashItemState::Pending => 0,
        StashItemState::PendingErr => 1,
        StashItemState::Started => 2,
        StashItemState::CompleteOk => 3,
        StashItemState::CompleteErr => 4,
    }
}

/// The state a stored byte stands for; unknown bytes read as `CompleteErr`.
pub open spec fn stash_state_decode(v: u8) -> StashItemState {
    if v == 0 {
        StashItemState::Pending
    } else if v == 1 {
        StashItemState::PendingErr
    } else if v == 2 {
        StashItemState::Started
    } else if v == 3 {
        StashItemState::CompleteOk
    } else {
        StashItemState::CompleteErr
    }
}

impl StashItemState {
    /// The byte this state is stored as.
    pub fn code(self) -> (v: u8)
        ensures
            v == stash_state_code(self),
    {
        match self {
            StashItemState::Pending => 0,
            StashItemState::PendingErr => 1,
            StashItemState::Started => 2,
            StashItemState::CompleteOk => 3,
            StashItemState::CompleteErr => 4,
        }
    }

    /// `Started`.
    pub fn is_started(self) -> (b: bool)
        ensures
            b <==> self == StashItemState::Started,
    {
        match self {
            StashItemState::Started => true,
            _ => false,
        }
    }

    /// `CompleteOk` or `CompleteErr`.
    pub fn is_complete(self) -> (b: bool)
        ensures
            b <==> (self == StashItemState::CompleteOk || self == StashItemState::CompleteErr),
    {
        match self {
            StashItemState::CompleteOk | StashItemState::CompleteErr => true,
            _ => false,
        }
    }

    /// `Pending`.
    pub fn is_pending(self) -> (b: bool)
        ensures
            b <==> self == StashItemState::Pending,
    {
        match self {
            StashItemState::Pending => true,
            _ => false,
        }
    }

    /// `PendingErr` or `CompleteErr`.
    pub fn is_error(self) -> (b: bool)
        ensures
            b <==> (self == StashItemState::PendingErr || self == StashItemState::CompleteErr),
    {
        match self {
            StashItemState::PendingErr | StashItemState::CompleteErr => true,
            _ => false,
        }
    }
}

/// Decoding a stored state gives the state back.
pub proof fn lemma_stash_state_round_trip(s: StashItemState)
    ensures
        stash_state_decode(stash_state_code(s)) == s,
{
}

/// Per-item status: the state, the progress (0..=255) and the size in bytes.
#[derive(Debug, Clone, Copy, Structural, PartialEq, Eq)]
pub struct StashItemStatus {
    pub state: StashItemState,
    pub progress: u8,
    pub size: u64,
}

impl StashItemStatus {
    /// A fresh pending status for a source of `size` bytes.
    pub fn new(size: u64) -> (s: Self)
        ensures
            s.state == StashItemState::Pending,
            s.progress == 0,
            s.size == size,
    {
        StashItemStatus { state: StashItemState::Pending, progress: 0, size }
    }
}

/// A stash state shared between threads. What a load returns depends on
/// the stores of every thread holding a clone, so no contract here pins it.
#[derive(Debug, Clone)]
pub struct AtomicStashItemState {
    state: Arc<AtomicU8>,
}

impl AtomicStashItemState {
    /// A fresh cell holding `Pending`.
    pub fn new() -> Self {
        AtomicStashItemState { state: Arc::new(AtomicU8::new(0)) }
    }

    /// The current state.
    #[inline]
    pub fn load(&self) -> StashItemState {
        Self::decode(self.state.load(Ordering::Acquire))
    }

    /// Stores `value`.
    #[inline]
    pub fn store(&self, value: StashItemState) {
        self.state.store(value.code(), Ordering::Release);
    }

    /// Replaces `current` by `new` if the cell holds `current`. `Ok` carries
    /// `current`; `Err` carries the state found, which differs from `current`
    /// unless an unknown byte was stored (it reads as `CompleteErr`).
    pub fn compare_exchange(&self, current: StashItemState, new: StashItemState) -> (r: Result<
        StashItemState,
        StashItemState,
    >)
        ensures
            r matches Ok(v) ==> v == current,
            r matches Err(v) ==> v != current || current == StashItemState::CompleteErr,
    {
        match crate::run::queue::status::cas_u8(&self.state, current.code(), new.code()) {
            Ok(v) => {
                proof { lemma_stash_state_round_trip(current); }
                Ok(Self::decode(v))
            },
            Err(v) => {
                proof { lemma_stash_state_round_trip(current); }
                Err(Self::decode(v))
            },
        }
    }

    #[inline]
    pub fn is_complete(&self) -> bool {
        self.load().is_complete()
    }

    #[inline]
    pub fn is_pending(&self) -> bool {
        self.load().is_pending()
    }

    #[inline]
    pub fn is_error(&self) -> bool {
        self.load().is_error()
    }

    fn decode(v: u8) -> (s: StashItemState)
        ensures
            s == stash_state_decode(v),
    {
        match v {
            0 => StashItemState::Pending,
            1 => StashItemState::PendingErr,
            2 => StashItemState::Started,
            3 => StashItemState::CompleteOk,
            _ => StashItemState::CompleteErr,
        }
    }
}

} // verus!
