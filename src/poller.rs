//! The decisions of the two polling loops, as state machines. The caller
//! performs each action (a chain query, a cursor write, a sleep) and feeds
//! back what happened; the machine says what to do next.
//!
//! The cursor is the last block fully processed. It only moves forward, and
//! only once the store has accepted it: a block range whose cursor write
//! failed is processed again on the next tick.

use vstd::prelude::*;

verus! {

/// Pause between ticks, in milliseconds.
pub const POLL_INTERVAL_MS: u64 = 2000;

/// Pause before asking again for a block the node does not have yet.
pub const BLOCK_PENDING_MS: u64 = 500;

/// Pause after a failed block fetch.
pub const BLOCK_ERROR_MS: u64 = 1000;

/// What the loop should do next.
#[derive(Clone, Copy, PartialEq, Eq, Structural, Debug)]
pub enum PollAction {
    /// Ask the node for its current head block number.
    FetchHead,
    /// Fetch the watched logs of these blocks (inclusive) and handle them in order.
    FetchLogs { from_block: u64, to_block: u64 },
    /// Fetch this block with full transactions and handle them.
    FetchBlock(u64),
    /// Write this block number to the cursor store.
    Persist(u64),
    /// Sleep this many milliseconds, then report `Woke`.
    Sleep(u64),
}

/// What happened when the loop performed the last action.
#[derive(Clone, Copy, PartialEq, Eq, Structural, Debug)]
pub enum PollEvent {
    HeadFetched(u64),
    HeadFailed,
    /// The logs came back and every one of them was handled.
    LogsHandled,
    LogsFailed,
    /// The block came back and its transactions were handled.
    BlockHandled,
    /// The node does not have the block yet.
    BlockMissing,
    BlockFailed,
    Persisted,
    PersistFailed,
    Woke,
}

/// Where the event poller stands.
#[derive(Clone, Copy, PartialEq, Eq, Structural, Debug)]
pub enum EventPhase {
    AwaitHead,
    AwaitLogs { to_block: u64 },
    AwaitPersist { to_block: u64 },
    Asleep,
}

/// The event poller: its cursor (none before the first head is known) and
/// what it waits for.
#[derive(Clone, Copy, PartialEq, Eq, Structural, Debug)]
pub struct EventPoller {
    pub cursor: Option<u64>,
    pub phase: EventPhase,
}

/// The action an event poller in this state waits on.
pub open spec fn event_pending(s: EventPoller) -> PollAction {
    match s.phase {
        EventPhase::AwaitHead => PollAction::FetchHead,
        EventPhase::AwaitLogs { to_block } => match s.cursor {
            Some(c) if c < to_block => PollAction::FetchLogs { from_block: (c + 1) as u64, to_block },
            _ => PollAction::FetchHead,
        },
        EventPhase::AwaitPersist { to_block } => PollAction::Persist(to_block),
        EventPhase::Asleep => PollAction::Sleep(POLL_INTERVAL_MS),
    }
}

/// One transition of the event poller. A fresh poller adopts the first head
/// it sees as its cursor and stores it, skipping history; afterwards each
/// tick fetches the blocks after the cursor up to the head, and the cursor
/// moves to the head once the store has taken it. An event that does not
/// fit the state leaves it as it is.
pub open spec fn event_step(s: EventPoller, ev: PollEvent) -> (EventPoller, PollAction) {
    match (s.phase, ev) {
        (EventPhase::AwaitHead, PollEvent::HeadFetched(h)) => match s.cursor {
            None => (
                EventPoller { cursor: Some(h), phase: EventPhase::AwaitPersist { to_block: h } },
                PollAction::Persist(h),
            ),
            Some(c) => if h > c {
                (
                    EventPoller { cursor: s.cursor, phase: EventPhase::AwaitLogs { to_block: h } },
                    PollAction::FetchLogs { from_block: (c + 1) as u64, to_block: h },
                )
            } else {
                (EventPoller { cursor: s.cursor, phase: EventPhase::Asleep }, PollAction::Sleep(POLL_INTERVAL_MS))
            },
        },
        (EventPhase::AwaitHead, PollEvent::HeadFailed) =>
            (EventPoller { cursor: s.cursor, phase: EventPhase::Asleep }, PollAction::Sleep(POLL_INTERVAL_MS)),
        (EventPhase::AwaitLogs { to_block }, PollEvent::LogsHandled) => (
            EventPoller { cursor: s.cursor, phase: EventPhase::AwaitPersist { to_block } },
            PollAction::Persist(to_block),
        ),
        (EventPhase::AwaitLogs { to_block }, PollEvent::LogsFailed) =>
            (EventPoller { cursor: s.cursor, phase: EventPhase::Asleep }, PollAction::Sleep(POLL_INTERVAL_MS)),
        (EventPhase::AwaitPersist { to_block }, PollEvent::Persisted) =>
            (EventPoller { cursor: Some(to_block), phase: EventPhase::Asleep }, PollAction::Sleep(POLL_INTERVAL_MS)),
        (EventPhase::AwaitPersist { to_block }, PollEvent::PersistFailed) =>
            (EventPoller { cursor: s.cursor, phase: EventPhase::Asleep }, PollAction::Sleep(POLL_INTERVAL_MS)),
        (EventPhase::Asleep, PollEvent::Woke) =>
            (EventPoller { cursor: s.cursor, phase: EventPhase::AwaitHead }, PollAction::FetchHead),
        _ => (s, event_pending(s)),
    }
}

/// A poller starting from the stored cursor, if any, and its first action.
pub open spec fn event_start(stored: Option<u64>) -> (EventPoller, PollAction) {
    (EventPoller { cursor: stored, phase: EventPhase::AwaitHead }, PollAction::FetchHead)
}

/// The states an event poller can reach: a pending range or write never
/// lies behind the cursor.
pub open spec fn event_wf(s: EventPoller) -> bool {
    match s.phase {
        EventPhase::AwaitLogs { to_block } => s.cursor matches Some(c) && c < to_block,
        EventPhase::AwaitPersist { to_block } => s.cursor matches Some(c) && c <= to_block,
        _ => true,
    }
}

impl EventPoller {
    /// A poller starting from the stored cursor, if any; its first action
    /// is to ask for the head.
    pub fn start(stored: Option<u64>) -> (r: (EventPoller, PollAction))
        ensures
            r == event_start(stored),
    {
        (EventPoller { cursor: stored, phase: EventPhase::AwaitHead }, PollAction::FetchHead)
    }

    /// The action this poller waits on.
    pub fn pending(&self) -> (r: PollAction)
        ensures
            r == event_pending(*self),
    {
        match self.phase {
            EventPhase::AwaitHead => PollAction::FetchHead,
            EventPhase::AwaitLogs { to_block } => match self.cursor {
                Some(c) => if c < to_block {
                    PollAction::FetchLogs { from_block: c + 1, to_block }
                } else {
                    PollAction::FetchHead
                },
                None => PollAction::FetchHead,
            },
            EventPhase::AwaitPersist { to_block } => PollAction::Persist(to_block),
            EventPhase::Asleep => PollAction::Sleep(POLL_INTERVAL_MS),
        }
    }

    /// Takes in what happened and returns the next action.
    pub fn step(&mut self, ev: PollEvent) -> (r: PollAction)
        ensures
            (*final(self), r) == event_step(*old(self), ev),
    {
        let s = *self;
        match (s.phase, ev) {
            (EventPhase::AwaitHead, PollEvent::HeadFetched(h)) => match s.cursor {
                None => {
                    *self = EventPoller { cursor: Some(h), phase: EventPhase::AwaitPersist { to_block: h } };
                    PollAction::Persist(h)
                },
                Some(c) => if h > c {
                    *self = EventPoller { cursor: s.cursor, phase: EventPhase::AwaitLogs { to_block: h } };
                    PollAction::FetchLogs { from_block: c + 1, to_block: h }
                } else {
                    *self = EventPoller { cursor: s.cursor, phase: EventPhase::Asleep };
                    PollAction::Sleep(POLL_INTERVAL_MS)
                },
            },
            (EventPhase::AwaitHead, PollEvent::HeadFailed) => {
                *self = EventPoller { cursor: s.cursor, phase: EventPhase::Asleep };
                PollAction::Sleep(POLL_INTERVAL_MS)
            },
            (EventPhase::AwaitLogs { to_block }, PollEvent::LogsHandled) => {
                *self = EventPoller { cursor: s.cursor, phase: EventPhase::AwaitPersist { to_block } };
                PollAction::Persist(to_block)
            },
            (EventPhase::AwaitLogs { to_block }, PollEvent::LogsFailed) => {
                *self = EventPoller { cursor: s.cursor, phase: EventPhase::Asleep };
                PollAction::Sleep(POLL_INTERVAL_MS)
            },
            (EventPhase::AwaitPersist { to_block }, PollEvent::Persisted) => {
                *self = EventPoller { cursor: Some(to_block), phase: EventPhase::Asleep };
                PollAction::Sleep(POLL_INTERVAL_MS)
            },
            (EventPhase::AwaitPersist { to_block }, PollEvent::PersistFailed) => {
                *self = EventPoller { cursor: s.cursor, phase: EventPhase::Asleep };
                PollAction::Sleep(POLL_INTERVAL_MS)
            },
            (EventPhase::Asleep, PollEvent::Woke) => {
                *self = EventPoller { cursor: s.cursor, phase: EventPhase::AwaitHead };
                PollAction::FetchHead
            },
            _ => s.pending(),
        }
    }
}


/// Where the transaction poller stands.
#[derive(Clone, Copy, PartialEq, Eq, Structural, Debug)]
pub enum TxPhase {
    AwaitHead,
    AwaitBlock { block: u64 },
    AwaitPersist { block: u64 },
    /// Waiting `wait` milliseconds before asking for `block` again.
    Retry { block: u64, wait: u64 },
    Asleep,
}

/// The transaction poller: its cursor (none before the first head is
/// known), the last head it saw, and what it waits for.
#[derive(Clone, Copy, PartialEq, Eq, Structural, Debug)]
pub struct TxPoller {
    pub cursor: Option<u64>,
    pub head: u64,
    pub phase: TxPhase,
}

/// The action a transaction poller in this state waits on.
pub open spec fn tx_pending(s: TxPoller) -> PollAction {
    match s.phase {
        TxPhase::AwaitHead => PollAction::FetchHead,
        TxPhase::AwaitBlock { block } => PollAction::FetchBlock(block),
        TxPhase::AwaitPersist { block } => PollAction::Persist(block),
        TxPhase::Retry { block, wait } => PollAction::Sleep(wait),
        TxPhase::Asleep => PollAction::Sleep(POLL_INTERVAL_MS),
    }
}

/// After block `b` is stored: the next block if the head is further on,
/// else a pause.
pub open spec fn tx_after_persist(head: u64, b: u64) -> (TxPoller, PollAction) {
    if b < head {
        (
            TxPoller { cursor: Some(b), head, phase: TxPhase::AwaitBlock { block: (b + 1) as u64 } },
            PollAction::FetchBlock((b + 1) as u64),
        )
    } else {
        (TxPoller { cursor: Some(b), head, phase: TxPhase::Asleep }, PollAction::Sleep(POLL_INTERVAL_MS))
    }
}

/// One transition of the transaction poller. It walks the blocks after the
/// cursor one at a time up to the head; a block the node does not have yet
/// is asked for again after a short wait, a failed fetch after a longer
/// one, and the cursor moves to a block once the store has taken it.
pub open spec fn tx_step(s: TxPoller, ev: PollEvent) -> (TxPoller, PollAction) {
    match (s.phase, ev) {
        (TxPhase::AwaitHead, PollEvent::HeadFetched(h)) => match s.cursor {
            None => (
                TxPoller { cursor: Some(h), head: h, phase: TxPhase::AwaitPersist { block: h } },
                PollAction::Persist(h),
            ),
            Some(c) => if c < h {
                (
                    TxPoller { cursor: s.cursor, head: h, phase: TxPhase::AwaitBlock { block: (c + 1) as u64 } },
                    PollAction::FetchBlock((c + 1) as u64),
                )
            } else {
                (TxPoller { cursor: s.cursor, head: h, phase: TxPhase::Asleep }, PollAction::Sleep(POLL_INTERVAL_MS))
            },
        },
        (TxPhase::AwaitHead, PollEvent::HeadFailed) =>
            (TxPoller { phase: TxPhase::Asleep, ..s }, PollAction::Sleep(POLL_INTERVAL_MS)),
        (TxPhase::AwaitBlock { block }, PollEvent::BlockHandled) =>
            (TxPoller { phase: TxPhase::AwaitPersist { block }, ..s }, PollAction::Persist(block)),
        (TxPhase::AwaitBlock { block }, PollEvent::BlockMissing) => (
            TxPoller { phase: TxPhase::Retry { block, wait: BLOCK_PENDING_MS }, ..s },
            PollAction::Sleep(BLOCK_PENDING_MS),
        ),
        (TxPhase::AwaitBlock { block }, PollEvent::BlockFailed) => (
            TxPoller { phase: TxPhase::Retry { block, wait: BLOCK_ERROR_MS }, ..s },
            PollAction::Sleep(BLOCK_ERROR_MS),
        ),
        (TxPhase::AwaitPersist { block }, PollEvent::Persisted) => tx_after_persist(s.head, block),
        (TxPhase::AwaitPersist { block }, PollEvent::PersistFailed) =>
            (TxPoller { phase: TxPhase::Asleep, ..s }, PollAction::Sleep(POLL_INTERVAL_MS)),
        (TxPhase::Retry { block, wait }, PollEvent::Woke) =>
            (TxPoller { phase: TxPhase::AwaitBlock { block }, ..s }, PollAction::FetchBlock(block)),
        (TxPhase::Asleep, PollEvent::Woke) =>
            (TxPoller { phase: TxPhase::AwaitHead, ..s }, PollAction::FetchHead),
        _ => (s, tx_pending(s)),
    }
}

/// A poller starting from the stored cursor, if any, and its first action.
pub open spec fn tx_start(stored: Option<u64>) -> (TxPoller, PollAction) {
    (TxPoller { cursor: stored, head: 0, phase: TxPhase::AwaitHead }, PollAction::FetchHead)
}

/// The states a transaction poller can reach: the block it works on is the
/// one after the cursor, and no later than the head.
pub open spec fn tx_wf(s: TxPoller) -> bool {
    match s.phase {
        TxPhase::AwaitBlock { block } => s.cursor matches Some(c) && block == c + 1 && block <= s.head,
        TxPhase::Retry { block, wait } => s.cursor matches Some(c) && block == c + 1 && block <= s.head,
        TxPhase::AwaitPersist { block } => s.cursor matches Some(c) && (block == c + 1 || block == c) && block <= s.head,
        _ => true,
    }
}

impl TxPoller {
    /// A poller starting from the stored cursor, if any; its first action
    /// is to ask for the head.
    pub fn start(stored: Option<u64>) -> (r: (TxPoller, PollAction))
        ensures
            r == tx_start(stored),
    {
        (TxPoller { cursor: stored, head: 0, phase: TxPhase::AwaitHead }, PollAction::FetchHead)
    }

    /// The action this poller waits on.
    pub fn pending(&self) -> (r: PollAction)
        ensures
            r == tx_pending(*self),
    {
        match self.phase {
            TxPhase::AwaitHead => PollAction::FetchHead,
            TxPhase::AwaitBlock { block } => PollAction::FetchBlock(block),
            TxPhase::AwaitPersist { block } => PollAction::Persist(block),
            TxPhase::Retry { block, wait } => PollAction::Sleep(wait),
            TxPhase::Asleep => PollAction::Sleep(POLL_INTERVAL_MS),
        }
    }

    /// Takes in what happened and returns the next action.
    pub fn step(&mut self, ev: PollEvent) -> (r: PollAction)
        ensures
            (*final(self), r) == tx_step(*old(self), ev),
    {
        let s = *self;
        match (s.phase, ev) {
            (TxPhase::AwaitHead, PollEvent::HeadFetched(h)) => match s.cursor {
                None => {
                    *self = TxPoller { cursor: Some(h), head: h, phase: TxPhase::AwaitPersist { block: h } };
                    PollAction::Persist(h)
                },
                Some(c) => if c < h {
                    *self = TxPoller { cursor: s.cursor, head: h, phase: TxPhase::AwaitBlock { block: c + 1 } };
                    PollAction::FetchBlock(c + 1)
                } else {
                    *self = TxPoller { cursor: s.cursor, head: h, phase: TxPhase::Asleep };
                    PollAction::Sleep(POLL_INTERVAL_MS)
                },
            },
            (TxPhase::AwaitHead, PollEvent::HeadFailed) => {
                *self = TxPoller { cursor: s.cursor, head: s.head, phase: TxPhase::Asleep };
                PollAction::Sleep(POLL_INTERVAL_MS)
            },
            (TxPhase::AwaitBlock { block }, PollEvent::BlockHandled) => {
                *self = TxPoller { cursor: s.cursor, head: s.head, phase: TxPhase::AwaitPersist { block } };
                PollAction::Persist(block)
            },
            (TxPhase::AwaitBlock { block }, PollEvent::BlockMissing) => {
                *self = TxPoller { cursor: s.cursor, head: s.head, phase: TxPhase::Retry { block, wait: BLOCK_PENDING_MS } };
                PollAction::Sleep(BLOCK_PENDING_MS)
            },
            (TxPhase::AwaitBlock { block }, PollEvent::BlockFailed) => {
                *self = TxPoller { cursor: s.cursor, head: s.head, phase: TxPhase::Retry { block, wait: BLOCK_ERROR_MS } };
                PollAction::Sleep(BLOCK_ERROR_MS)
            },
            (TxPhase::AwaitPersist { block }, PollEvent::Persisted) => {
                if block < s.head {
                    *self = TxPoller { cursor: Some(block), head: s.head, phase: TxPhase::AwaitBlock { block: block + 1 } };
                    PollAction::FetchBlock(block + 1)
                } else {
                    *self = TxPoller { cursor: Some(block), head: s.head, phase: TxPhase::Asleep };
                    PollAction::Sleep(POLL_INTERVAL_MS)
                }
            },
            (TxPhase::AwaitPersist { block }, PollEvent::PersistFailed) => {
                *self = TxPoller { cursor: s.cursor, head: s.head, phase: TxPhase::Asleep };
                PollAction::Sleep(POLL_INTERVAL_MS)
            },
            (TxPhase::Retry { block, wait }, PollEvent::Woke) => {
                *self = TxPoller { cursor: s.cursor, head: s.head, phase: TxPhase::AwaitBlock { block } };
                PollAction::FetchBlock(block)
            },
            (TxPhase::Asleep, PollEvent::Woke) => {
                *self = TxPoller { cursor: s.cursor, head: s.head, phase: TxPhase::AwaitHead };
                PollAction::FetchHead
            },
            _ => s.pending(),
        }
    }
}

/// Both pollers stay in reachable states, and their cursors never move
/// back: once a block is recorded as processed it stays processed.
pub proof fn cursors_only_advance(s: EventPoller, t: TxPoller, ev: PollEvent)
    ensures
        event_wf(event_start(None).0),
        tx_wf(tx_start(None).0),
        event_wf(s) ==> event_wf(event_step(s, ev).0),
        tx_wf(t) ==> tx_wf(tx_step(t, ev).0),
        event_wf(s) && s.cursor is Some ==> (event_step(s, ev).0.cursor matches Some(d) && s.cursor->0 <= d),
        tx_wf(t) && t.cursor is Some ==> (tx_step(t, ev).0.cursor matches Some(d) && t.cursor->0 <= d),
{
}

/// Resumption: from a stored cursor `c`, the first range or block fetched
/// starts at `c + 1`; while the head is not past `c` nothing is fetched.
/// Every later fetch also starts right after the cursor, so no block at or
/// before a recorded cursor is fetched again.
pub proof fn resumption(c: u64, h: u64, s: EventPoller, t: TxPoller, ev: PollEvent)
    ensures
        event_step(event_start(Some(c)).0, PollEvent::HeadFetched(h)).1 == (if h > c {
            PollAction::FetchLogs { from_block: (c + 1) as u64, to_block: h }
        } else {
            PollAction::Sleep(POLL_INTERVAL_MS)
        }),
        tx_step(tx_start(Some(c)).0, PollEvent::HeadFetched(h)).1 == (if h > c {
            PollAction::FetchBlock((c + 1) as u64)
        } else {
            PollAction::Sleep(POLL_INTERVAL_MS)
        }),
        event_wf(s) && event_step(s, ev).1 is FetchLogs ==> (event_step(s, ev).0.cursor matches Some(k)
            && event_step(s, ev).1->from_block == k + 1
            && event_step(s, ev).1->from_block <= event_step(s, ev).1->to_block),
        tx_wf(t) && tx_step(t, ev).1 is FetchBlock ==> (tx_step(t, ev).0.cursor matches Some(k)
            && tx_step(t, ev).1->FetchBlock_0 == k + 1),
{
}

/// Fresh start: with no stored cursor the pollers take the head they first
/// see as their cursor and store it, and the first range fetched after that
/// begins just past that head: no history is scanned.
pub proof fn fresh_start(h: u64, h2: u64)
    ensures
        event_step(event_start(None).0, PollEvent::HeadFetched(h))
            == (EventPoller { cursor: Some(h), phase: EventPhase::AwaitPersist { to_block: h } }, PollAction::Persist(h)),
        tx_step(tx_start(None).0, PollEvent::HeadFetched(h)).1 == PollAction::Persist(h),
        tx_step(tx_start(None).0, PollEvent::HeadFetched(h)).0.cursor == Some(h),
        ({
            let s1 = event_step(event_start(None).0, PollEvent::HeadFetched(h)).0;
            let s2 = event_step(s1, PollEvent::Persisted).0;
            let s3 = event_step(s2, PollEvent::Woke).0;
            event_step(s3, PollEvent::HeadFetched(h2)).1 == if h2 > h {
                PollAction::FetchLogs { from_block: (h + 1) as u64, to_block: h2 }
            } else {
                PollAction::Sleep(POLL_INTERVAL_MS)
            }
        }),
        ({
            let t1 = tx_step(tx_start(None).0, PollEvent::HeadFetched(h)).0;
            let t2 = tx_step(t1, PollEvent::Persisted).0;
            let t3 = tx_step(t2, PollEvent::Woke).0;
            tx_step(t3, PollEvent::HeadFetched(h2)).1 == if h2 > h {
                PollAction::FetchBlock((h + 1) as u64)
            } else {
                PollAction::Sleep(POLL_INTERVAL_MS)
            }
        }),
{
}

/// At-least-once: when a range was fetched and handled but storing the
/// cursor failed, the cursor stays where it was and the next tick fetches
/// from the same first block again, up to the new head.
pub proof fn failed_persist_repeats_range(s: EventPoller, t: TxPoller, b: u64, h: u64)
    requires
        s.phase matches EventPhase::AwaitLogs { to_block } && h >= to_block,
        event_wf(s),
        t.phase == (TxPhase::AwaitBlock { block: b }),
        h >= b,
        tx_wf(t),
    ensures
        ({
            let s1 = event_step(s, PollEvent::LogsHandled).0;
            let s2 = event_step(s1, PollEvent::PersistFailed).0;
            let s3 = event_step(s2, PollEvent::Woke).0;
            &&& s2.cursor == s.cursor
            &&& event_step(s3, PollEvent::HeadFetched(h)).1 == PollAction::FetchLogs {
                from_block: (s.cursor->0 + 1) as u64,
                to_block: h,
            }
        }),
        ({
            let t1 = tx_step(t, PollEvent::BlockHandled).0;
            let t2 = tx_step(t1, PollEvent::PersistFailed).0;
            let t3 = tx_step(t2, PollEvent::Woke).0;
            &&& t2.cursor == t.cursor
            &&& tx_step(t3, PollEvent::HeadFetched(h)).1 == PollAction::FetchBlock(b)
        }),
{
}

} // verus!
