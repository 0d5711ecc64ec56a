//! Progress state of a queued operation: the plain state value, its
//! clearing bitflag, and the atomic cell that hands a row's state between
//! the UI thread and the transfer workers.

use std::sync::Arc;
use std::sync::atomic::AtomicU8;
use std::sync::atomic::Ordering;
use vstd::prelude::*;

verus! {

/// Lifecycle of one queued operation.
#[derive(Copy, Clone, Eq, PartialEq, Debug, Structural)]
pub enum QueueItemState {
    Pending,
    PendingErr,
    Started,
    CompleteOk,
    CompleteErr,
}

/// The byte a state is stored as.
pub open spec fn queue_state_code(s: QueueItemState) -> u8 {
    match s {
        QueueItemState::Pending => 0,
        QueueItemState::PendingErr => 1,
        QueueItemState::Started => 2,
        QueueItemState::CompleteOk => 3,
        QueueItemState::CompleteErr => 4,
    }
}

/// The state a stored byte stands for; unknown bytes read as `CompleteErr`.
pub open spec fn queue_state_decode(v: u8) -> QueueItemState {
    if v == 0 {
        QueueItemState::Pending
    } else if v == 1 {
        QueueItemState::PendingErr
    } else if v == 2 {
        QueueItemState::Started
    } else if v == 3 {
        QueueItemState::CompleteOk
    } else {
        QueueItemState::CompleteErr
    }
}

/// Clearing bitflags of the queue states, one bit per state.
#[derive(Copy, Clone, Eq, PartialEq, Debug, Structural)]
pub enum QueueItems {
    Pending,
    PendingErr,
    Started,
    CompleteOk,
    CompleteErr,
}

/// The bit a clearing flag stands for.
pub open spec fn queue_items_bits(f: QueueItems) -> u8 {
    match f {
        QueueItems::Pending => 1,
        QueueItems::PendingErr => 2,
        QueueItems::Started => 4,
        QueueItems::CompleteOk => 8,
        QueueItems::CompleteErr => 16,
    }
}

impl QueueItems {
    /// The raw bits.
    pub fn bits(&self) -> (b: u8)
        ensures
            b == queue_items_bits(*self),
    {
        match self {
            QueueItems::Pending => 1,
            QueueItems::PendingErr => 2,
            QueueItems::Started => 4,
            QueueItems::CompleteOk => 8,
            QueueItems::CompleteErr => 16,
        }
    }
}

impl QueueItemState {
    /// The clearing bitflag for this state: bit `n` for the state stored as `n`.
    pub fn to_bitflag(&self) -> (f: QueueItems)
        ensures
            queue_items_bits(f) == 1u8 << queue_state_code(*self),
    {
        proof {
            assert(1u8 << 0u8 == 1u8) by (bit_vector);
            assert(1u8 << 1u8 == 2u8) by (bit_vector);
            assert(1u8 << 2u8 == 4u8) by (bit_vector);
            assert(1u8 << 3u8 == 8u8) by (bit_vector);
            assert(1u8 << 4u8 == 16u8) by (bit_vector);
        }
        match self {
            QueueItemState::Pending => QueueItems::Pending,
            QueueItemState::PendingErr => QueueItems::PendingErr,
            QueueItemState::Started => QueueItems::Started,
            QueueItemState::CompleteOk => QueueItems::CompleteOk,
            QueueItemState::CompleteErr => QueueItems::CompleteErr,
        }
    }

    /// The byte this state is stored as.
    pub fn code(self) -> (v: u8)
        ensures
            v == queue_state_code(self),
    {
        match self {
            QueueItemState::Pending => 0,
            QueueItemState::PendingErr => 1,
            QueueItemState::Started => 2,
            QueueItemState::CompleteOk => 3,
            QueueItemState::CompleteErr => 4,
        }
    }

    /// `Started`.
    pub fn is_started(self) -> (b: bool)
        ensures
            b <==> self == QueueItemState::Started,
    {
        match self {
            QueueItemState::Started => true,
            _ => false,
        }
    }

    /// `CompleteOk` or `CompleteErr`.
    pub fn is_complete(self) -> (b: bool)
        ensures
            b <==> (self == QueueItemState::CompleteOk || self == QueueItemState::CompleteErr),
    {
        match self {
            QueueItemState::CompleteOk | QueueItemState::CompleteErr => true,
            _ => false,
        }
    }

    /// `Pending`.
    pub fn is_pending(self) -> (b: bool)
        ensures
            b <==> self == QueueItemState::Pending,
    {
        match self {
            QueueItemState::Pending => true,
            _ => false,
        }
    }

    /// `PendingErr` or `CompleteErr`.
    pub fn is_error(self) -> (b: bool)
        ensures
            b <==> (self == QueueItemState::PendingErr || self == QueueItemState::CompleteErr),
    {
        match self {
            QueueItemState::PendingErr | QueueItemState::CompleteErr => true,
            _ => false,
        }
    }
}

/// Decoding a stored state gives the state back.
pub proof fn lemma_queue_state_round_trip(s: QueueItemState)
    ensures
        queue_state_decode(queue_state_code(s)) == s,
{
}

/// Per-row status: the state, the progress (0..=255) and the size in bytes.
#[derive(Debug, Clone, Copy, Structural, PartialEq, Eq)]
pub struct QueueItemStatus {
    pub state: QueueItemState,
    pub progress: u8,
    pub size: u64,
}

impl QueueItemStatus {
    /// A fresh pending status for a source of `size` bytes.
    pub fn new(size: u64) -> (s: Self)
        ensures
            s.state == QueueItemState::Pending,
            s.progress == 0,
            s.size == size,
    {
        QueueItemStatus { state: QueueItemState::Pending, progress: 0, size }
    }
}

/// `AtomicU8::compare_exchange` with acquire-release ordering: `Ok` carries
/// the value found, which equals `current`; `Err` a value that differs.
#[verifier::external_body]
pub(crate) fn cas_u8(cell: &AtomicU8, current: u8, new: u8) -> (r: Result<u8, u8>)
    ensures
        r matches Ok(v) ==> v == current,
        r matches Err(v) ==> v != current,
{
    cell.compare_exchange(current, new, Ordering::AcqRel, Ordering::Acquire)
}

/// A queue state shared between threads. What a load returns depends on
/// the stores of every thread holding a clone, so no contract here pins it.
#[derive(Debug, Clone)]
pub struct AtomicQueueItemState {
    state: Arc<AtomicU8>,
}

impl AtomicQueueItemState {
    /// A fresh cell holding `Pending`.
    pub fn new() -> Self {
        AtomicQueueItemState { state: Arc::new(AtomicU8::new(0)) }
    }

    /// The current state.
    #[inline]
    pub fn load(&self) -> QueueItemState {
        Self::decode(self.state.load(Ordering::Acquire))
    }

    /// Stores `value`.
    #[inline]
    pub fn store(&self, value: QueueItemState) {
        self.state.store(value.code(), Ordering::Release);
    }

    /// Replaces `current` by `new` if the cell holds `current`. `Ok` carries
    /// `current`; `Err` carries the state found, which differs from `current`
    /// unless an unknown byte was stored (it reads as `CompleteErr`).
    pub fn compare_exchange(&self, current: QueueItemState, new: QueueItemState) -> (r: Result<
        QueueItemState,
        QueueItemState,
    >)
        ensures
            r matches Ok(v) ==> v == current,
            r matches Err(v) ==> v != current || current == QueueItemState::CompleteErr,
    {
        match cas_u8(&self.state, current.code(), new.code()) {
            Ok(v) => {
                let s = Self::decode(v);
                proof { lemma_queue_state_round_trip(current); }
                Ok(s)
            },
            Err(v) => {
                proof { lemma_queue_state_round_trip(current); }
                Err(Self::decode(v))
            },
        }
    }

    #[inline]
    pub fn is_started(&self) -> bool {
        self.load().is_started()
    }

    pub fn is_complete(&self) -> bool {
        self.load().is_complete()
    }

    #[inline]
    pub fn is_pending(&self) -> bool {
        self.load().is_pending()
    }

    #[inline]
    pub fn is_error(&self) -> bool {
        self.load().is_error()
    }

    fn decode(v: u8) -> (s: QueueItemState)
        ensures
            s == queue_state_decode(v),
    {
        match v {
            0 => QueueItemState::Pending,
            1 => QueueItemState::PendingErr,
            2 => QueueItemState::Started,
            3 => QueueItemState::CompleteOk,
            _ => QueueItemState::CompleteErr,
        }
    }
}

} // verus!
