use vstd::prelude::*;
use crate::error::InputError;

verus! {

// The two-phase sized query protocol: probe the required size with no
// buffer, allocate exactly that size, fill, and if the fill reports that
// the size grew in between (the device list changed), retry the whole
// sequence once. A second race is a transient failure, never a panic.
//
// The caller owns the buffer and the calls into the OS; it drives this
// state machine with one event per completed call and performs the action
// the current phase calls for: probe while `ProbePending`, fill a buffer
// of `capacity` elements while `FillPending`, and stop on `Complete` or
// `Failed`.

/// What the OS reported for the call the protocol last asked for.
#[derive(Clone, Copy, Debug, PartialEq, Eq, Structural)]
pub enum QueryEvent {
    /// The probe reported the required element count.
    ProbeOk { required: usize },
    /// The probe itself reported an OS-level error.
    ProbeFailed,
    /// The fill reported the number of elements written.
    FillOk { written: usize },
    /// The fill reported a required size greater than what was allocated.
    FillTooSmall,
    /// The fill reported an OS-level error.
    FillFailed,
}

/// Phase of one sized query.
#[derive(Clone, Copy, Debug, PartialEq, Eq, Structural)]
pub enum QueryPhase {
    /// A size probe is owed. `retried` records whether one sizing race
    /// was already absorbed.
    ProbePending { retried: bool },
    /// A fill into a buffer of exactly `capacity` elements is owed.
    FillPending { capacity: usize, retried: bool },
    /// The query is done: the buffer holds `len` filled elements.
    Complete { len: usize },
    /// The query failed with the given error.
    Failed { error: InputError },
}

/// Whether `ev` reports the call that `phase` is waiting for.
pub open spec fn spec_event_expected(phase: QueryPhase, ev: QueryEvent) -> bool {
    match phase {
        QueryPhase::ProbePending { .. } => ev matches QueryEvent::ProbeOk { .. }
            || ev == QueryEvent::ProbeFailed,
        QueryPhase::FillPending { .. } => ev matches QueryEvent::FillOk { .. }
            || ev == QueryEvent::FillTooSmall || ev == QueryEvent::FillFailed,
        QueryPhase::Complete { .. } => false,
        QueryPhase::Failed { .. } => false,
    }
}

pub open spec fn spec_step(phase: QueryPhase, ev: QueryEvent) -> QueryPhase {
    match phase {
        QueryPhase::ProbePending { retried } => match ev {
            QueryEvent::ProbeOk { required } => QueryPhase::FillPending {
                capacity: required,
                retried,
            },
            _ => QueryPhase::Failed { error: InputError::QueryFailed },
        },
        QueryPhase::FillPending { capacity, retried } => match ev {
            QueryEvent::FillOk { written } => if written <= capacity {
                QueryPhase::Complete { len: written }
            } else {
                // The OS wrote more than it was given room for only in its
                // report, never in memory: treat the overflowing count as
                // one more sizing race.
                if retried {
                    QueryPhase::Failed { error: InputError::QueryUnstable }
                } else {
                    QueryPhase::ProbePending { retried: true }
                }
            },
            QueryEvent::FillTooSmall => if retried {
                QueryPhase::Failed { error: InputError::QueryUnstable }
            } else {
                QueryPhase::ProbePending { retried: true }
            },
            _ => QueryPhase::Failed { error: InputError::QueryFailed },
        },
        _ => phase,
    }
}

impl QueryPhase {
    /// A fresh query: a probe is owed and no retry has been spent.
    pub fn init() -> (r: QueryPhase)
        ensures
            r == (QueryPhase::ProbePending { retried: false }),
    {
        QueryPhase::ProbePending { retried: false }
    }

    /// Advances the protocol by the outcome of the call the current phase
    /// asked for.
    pub fn step(self, ev: QueryEvent) -> (r: QueryPhase)
        requires
            spec_event_expected(self, ev),
        ensures
            r == spec_step(self, ev),
    {
        match self {
            QueryPhase::ProbePending { retried } => match ev {
                QueryEvent::ProbeOk { required } => QueryPhase::FillPending {
                    capacity: required,
                    retried,
                },
                _ => QueryPhase::Failed { error: InputError::QueryFailed },
            },
            QueryPhase::FillPending { capacity, retried } => match ev {
                QueryEvent::FillOk { written } => if written <= capacity {
                    QueryPhase::Complete { len: written }
                } else if retried {
                    QueryPhase::Failed { error: InputError::QueryUnstable }
                } else {
                    QueryPhase::ProbePending { retried: true }
                },
                QueryEvent::FillTooSmall => if retried {
                    QueryPhase::Failed { error: InputError::QueryUnstable }
                } else {
                    QueryPhase::ProbePending { retried: true }
                },
                _ => QueryPhase::Failed { error: InputError::QueryFailed },
            },
            _ => self,
        }
    }
}

/// A buffer allocated with exactly the element count the probe reported,
/// when the fill then fits it, completes the query with the fill's count:
/// absent a concurrent device-list change, probe then fill round-trips.
pub proof fn lemma_probe_fill_round_trip(required: usize, written: usize)
    requires
        written <= required,
    ensures
        spec_step(
            spec_step(QueryPhase::ProbePending { retried: false }, QueryEvent::ProbeOk { required }),
            QueryEvent::FillOk { written },
        ) == (QueryPhase::Complete { len: written }),
{
}

/// One sizing race is absorbed by a retry; a second one fails the query
/// as unstable rather than looping or panicking.
pub proof fn lemma_second_race_is_unstable(capacity1: usize, capacity2: usize)
    ensures
        spec_step(
            QueryPhase::FillPending { capacity: capacity1, retried: false },
            QueryEvent::FillTooSmall,
        ) == (QueryPhase::ProbePending { retried: true }),
        spec_step(
            QueryPhase::FillPending { capacity: capacity2, retried: true },
            QueryEvent::FillTooSmall,
        ) == (QueryPhase::Failed { error: InputError::QueryUnstable }),
{
}

} // verus!
