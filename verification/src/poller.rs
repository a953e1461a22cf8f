use vstd::prelude::*;
use crate::device::{DeviceClass, DeviceHandle, DeviceRecord};
use crate::error::InputError;
use crate::registry::DeviceRegistry;

verus! {

// The poller drains batches of pending input events and dispatches each
// event to the device that produced it. It is a state machine — Idle
// until started, Draining while batches flow, Stopped on cancellation or
// a fatal error — driven by the caller, which owns the OS batch reads:
// it reads a batch into a buffer of the poller's current capacity, grows
// the capacity when the OS answers that the batch would not fit, and
// hands the decoded entries to `dispatch_batch`. Events of one batch are
// dispatched in the order the OS reported them; an event whose source
// handle is not in the registry is dropped and counted, never fatal.

/// Batch capacity a fresh poller is usually given.
pub const INITIAL_BATCH_CAPACITY: usize = 256;

/// Ceiling of capacity growth; needing more than this in one batch stops
/// the poller with [`InputError::BatchResizeExhausted`].
pub const MAX_BATCH_CAPACITY: usize = 1048576;

/// Payload of one OS batch entry, as the caller decoded the OS's
/// per-type union; the shape follows the type tag the OS put on the
/// entry.
#[derive(Debug)]
pub enum RawData {
    Mouse { dx: i32, dy: i32, buttons: u32 },
    Keyboard { keycode: u16, flags: u16 },
    Other { raw_bytes: Vec<u8> },
}

/// One entry of a drained batch: the handle of the device that produced
/// it and its payload.
#[derive(Debug)]
pub struct RawEntry {
    pub source: DeviceHandle,
    pub data: RawData,
}

/// Decoded payload of one dispatched event.
#[derive(Debug)]
pub enum EventPayload {
    MouseDelta { dx: i32, dy: i32, buttons: u32 },
    KeyEvent { keycode: u16, pressed: bool },
    Other { raw_bytes: Vec<u8> },
}

/// One timestamped input sample, handed to the sink and never retained.
#[derive(Debug)]
pub struct RawInputEvent {
    /// Monotonic instant at which the poller observed the batch holding
    /// this event (the OS does not expose generation time at this layer).
    pub timestamp: u64,
    /// Handle of the originating device.
    pub source: DeviceHandle,
    pub payload: EventPayload,
}

/// How a payload is decoded for a device of the given class: mouse data
/// of a mouse becomes a delta, keyboard data of a keyboard a key event
/// (the lowest flag bit set marks a release), other HID data keeps its
/// bytes. Data whose shape contradicts the registered class carries no
/// meaning either way and decodes to an empty opaque payload.
pub open spec fn spec_payload_matches(class: DeviceClass, data: RawData, p: EventPayload) -> bool {
    match data {
        RawData::Mouse { dx, dy, buttons } => if class == DeviceClass::Mouse {
            p == (EventPayload::MouseDelta { dx, dy, buttons })
        } else {
            p matches EventPayload::Other { raw_bytes } && raw_bytes@ == Seq::<u8>::empty()
        },
        RawData::Keyboard { keycode, flags } => if class == DeviceClass::Keyboard {
            p == (EventPayload::KeyEvent { keycode, pressed: flags & 1 == 0 })
        } else {
            p matches EventPayload::Other { raw_bytes } && raw_bytes@ == Seq::<u8>::empty()
        },
        RawData::Other { raw_bytes: b } => p matches EventPayload::Other { raw_bytes }
            && raw_bytes@ == b@,
    }
}

/// The event the poller emits for a batch entry: stamped with the
/// observation instant, attributed to the entry's source device, with the
/// payload decoded for that device's registered class.
pub open spec fn spec_event_matches(
    contents: Map<u64, DeviceRecord>,
    e: RawEntry,
    ev: RawInputEvent,
    now: u64,
) -> bool {
    &&& ev.timestamp == now
    &&& ev.source == e.source
    &&& contents.contains_key(e.source.0)
    &&& spec_payload_matches(contents[e.source.0].device_class, e.data, ev.payload)
}

/// Whether the entry's source handle is registered.
pub open spec fn spec_known(contents: Map<u64, DeviceRecord>, e: RawEntry) -> bool {
    contents.contains_key(e.source.0)
}

/// The positions, in order, of the batch entries whose source is
/// registered: the entries the poller emits events for.
pub open spec fn spec_known_indices(
    contents: Map<u64, DeviceRecord>,
    entries: Seq<RawEntry>,
) -> Seq<int>
    decreases entries.len(),
{
    if entries.len() == 0 {
        Seq::empty()
    } else {
        let rest = spec_known_indices(contents, entries.drop_last());
        if spec_known(contents, entries.last()) {
            rest.push(entries.len() - 1)
        } else {
            rest
        }
    }
}

/// How many entries of the batch reference an unregistered handle.
pub open spec fn spec_unknown_count(
    contents: Map<u64, DeviceRecord>,
    entries: Seq<RawEntry>,
) -> nat
    decreases entries.len(),
{
    if entries.len() == 0 {
        0
    } else {
        spec_unknown_count(contents, entries.drop_last()) + if spec_known(
            contents,
            entries.last(),
        ) {
            0nat
        } else {
            1nat
        }
    }
}

/// Addition that stops at the counter's ceiling instead of wrapping.
pub open spec fn sat_add_u64(a: u64, b: nat) -> u64 {
    if a + b <= u64::MAX {
        (a + b) as u64
    } else {
        u64::MAX
    }
}

/// Extending a batch prefix by one entry appends its position to the
/// known positions when its source is registered, and counts it as
/// unknown otherwise.
proof fn lemma_known_indices_step(
    contents: Map<u64, DeviceRecord>,
    entries: Seq<RawEntry>,
    i: int,
)
    requires
        0 <= i < entries.len(),
    ensures
        spec_known_indices(contents, entries.subrange(0, i + 1)) == if spec_known(
            contents,
            entries[i],
        ) {
            spec_known_indices(contents, entries.subrange(0, i)).push(i)
        } else {
            spec_known_indices(contents, entries.subrange(0, i))
        },
        spec_unknown_count(contents, entries.subrange(0, i + 1)) == spec_unknown_count(
            contents,
            entries.subrange(0, i),
        ) + if spec_known(contents, entries[i]) {
            0nat
        } else {
            1nat
        },
{
    let cur = entries.subrange(0, i + 1);
    assert(cur.drop_last() =~= entries.subrange(0, i));
    assert(cur.last() == entries[i]);
}

/// The order the OS reported a batch in is kept: the emitted positions
/// are in range, strictly increasing, exactly the registered positions —
/// the poller reorders nothing within a batch, across devices or within
/// one device.
pub proof fn lemma_known_indices_ordered(
    contents: Map<u64, DeviceRecord>,
    entries: Seq<RawEntry>,
)
    ensures
        ({
            let idx = spec_known_indices(contents, entries);
            &&& forall|k: int| 0 <= k < idx.len() ==> 0 <= #[trigger] idx[k] < entries.len()
            &&& forall|k1: int, k2: int|
                0 <= k1 < k2 < idx.len() ==> #[trigger] idx[k1] < #[trigger] idx[k2]
            &&& forall|k: int|
                0 <= k < idx.len() ==> spec_known(contents, entries[#[trigger] idx[k]])
            &&& forall|j: int|
                0 <= j < entries.len() && spec_known(contents, #[trigger] entries[j])
                    ==> spec_known_indices(contents, entries).contains(j)
        }),
    decreases entries.len(),
{
    if entries.len() > 0 {
        let pre = entries.drop_last();
        lemma_known_indices_ordered(contents, pre);
        let rest = spec_known_indices(contents, pre);
        let idx = spec_known_indices(contents, entries);
        assert forall|j: int|
            0 <= j < entries.len() && spec_known(contents, #[trigger] entries[j])
            implies idx.contains(j) by {
            if j == entries.len() - 1 {
                assert(entries.last() == entries[j]);
                assert(idx == rest.push(j));
                assert(idx[idx.len() - 1] == j);
            } else {
                assert(pre[j] == entries[j]);
                assert(rest.contains(j));
                let w = choose|w: int| 0 <= w < rest.len() && rest[w] == j;
                assert(idx[w] == j);
            }
        }
        assert forall|k: int| 0 <= k < idx.len() implies 0 <= #[trigger] idx[k] < entries.len()
            && spec_known(contents, entries[idx[k]]) by {
            if k < rest.len() {
                assert(idx[k] == rest[k]);
                assert(pre[rest[k]] == entries[rest[k]]);
            } else {
                assert(spec_known(contents, entries.last()));
                assert(idx[k] == entries.len() - 1);
            }
        }
        assert forall|k1: int, k2: int| 0 <= k1 < k2 < idx.len() implies #[trigger] idx[k1]
            < #[trigger] idx[k2] by {
            assert(idx[k1] == rest[k1]);
            if k2 < rest.len() {
                assert(idx[k2] == rest[k2]);
            } else {
                assert(0 <= rest[k1] < pre.len());
                assert(idx[k2] == entries.len() - 1);
            }
        }
    }
}

/// In a batch whose every entry is registered, nothing is dropped: one
/// event per entry, in the same positions.
pub proof fn lemma_all_known_keeps_positions(
    contents: Map<u64, DeviceRecord>,
    entries: Seq<RawEntry>,
)
    requires
        forall|j: int| 0 <= j < entries.len() ==> spec_known(contents, #[trigger] entries[j]),
    ensures
        spec_known_indices(contents, entries).len() == entries.len(),
        forall|k: int|
            0 <= k < entries.len() ==> #[trigger] spec_known_indices(contents, entries)[k] == k,
        spec_unknown_count(contents, entries) == 0,
    decreases entries.len(),
{
    if entries.len() > 0 {
        let pre = entries.drop_last();
        assert(forall|j: int| 0 <= j < pre.len() ==> #[trigger] pre[j] == entries[j]);
        lemma_all_known_keeps_positions(contents, pre);
        let idx = spec_known_indices(contents, entries);
        let rest = spec_known_indices(contents, pre);
        assert(spec_known(contents, entries.last()));
        assert(idx == rest.push(entries.len() - 1));
        assert(forall|k: int| 0 <= k < pre.len() ==> #[trigger] idx[k] == rest[k]);
    }
}

fn clone_bytes(b: &Vec<u8>) -> (r: Vec<u8>)
    ensures
        r@ == b@,
{
    let mut r: Vec<u8> = Vec::new();
    let mut i: usize = 0;
    while i < b.len()
        invariant
            0 <= i <= b@.len(),
            r@ == b@.subrange(0, i as int),
        decreases b@.len() - i,
    {
        r.push(b[i]);
        proof {
            assert(r@ =~= b@.subrange(0, i + 1));
        }
        i = i + 1;
    }
    proof {
        assert(b@.subrange(0, i as int) =~= b@);
    }
    r
}

/// Decodes one entry's payload for a device of the given class.
fn decode_payload(class: DeviceClass, data: &RawData) -> (p: EventPayload)
    ensures
        spec_payload_matches(class, *data, p),
{
    match data {
        RawData::Mouse { dx, dy, buttons } => if class == DeviceClass::Mouse {
            EventPayload::MouseDelta { dx: *dx, dy: *dy, buttons: *buttons }
        } else {
            EventPayload::Other { raw_bytes: Vec::new() }
        },
        RawData::Keyboard { keycode, flags } => if class == DeviceClass::Keyboard {
            EventPayload::KeyEvent { keycode: *keycode, pressed: *flags & 1 == 0 }
        } else {
            EventPayload::Other { raw_bytes: Vec::new() }
        },
        RawData::Other { raw_bytes } => EventPayload::Other { raw_bytes: clone_bytes(raw_bytes) },
    }
}

/// Lifecycle of the poller.
#[derive(Clone, Copy, Debug, PartialEq, Eq, Structural)]
pub enum PollerState {
    /// Not yet started.
    Idle,
    /// Actively requesting batches and dispatching.
    Draining,
    /// Terminated, by cancellation or by a fatal error.
    Stopped,
}

/// The event poller: owns the batch capacity, the count of events dropped
/// for an unregistered source, and the one fatal error to surface.
pub struct Poller {
    state: PollerState,
    capacity: usize,
    dropped_unknown: u64,
    fatal: Option<InputError>,
}

impl Poller {
    pub closed spec fn spec_state(&self) -> PollerState {
        self.state
    }

    /// Element capacity the next batch read should offer the OS.
    pub closed spec fn spec_capacity(&self) -> usize {
        self.capacity
    }

    /// How many events were dropped because their source was not
    /// registered.
    pub closed spec fn spec_dropped_unknown(&self) -> u64 {
        self.dropped_unknown
    }

    /// The fatal error not yet surfaced, if any.
    pub closed spec fn spec_fatal(&self) -> Option<InputError> {
        self.fatal
    }

    /// The capacity stays within bounds that keep growth free of
    /// overflow.
    pub open spec fn wf(&self) -> bool {
        1 <= self.spec_capacity() <= MAX_BATCH_CAPACITY
    }

    /// A poller that has not started: no events dropped, no error.
    pub fn new(initial_capacity: usize) -> (p: Self)
        requires
            1 <= initial_capacity <= MAX_BATCH_CAPACITY,
        ensures
            p.wf(),
            p.spec_state() == PollerState::Idle,
            p.spec_capacity() == initial_capacity,
            p.spec_dropped_unknown() == 0,
            p.spec_fatal() is None,
    {
        Poller { state: PollerState::Idle, capacity: initial_capacity, dropped_unknown: 0, fatal: None }
    }

    /// Starts draining once the caller has registered interest with the
    /// OS; a refused registration stops the poller before it ever drains,
    /// surfaced as [`InputError::RegistrationFailed`].
    pub fn start(&mut self, registration_ok: bool)
        requires
            old(self).wf(),
            old(self).spec_state() == PollerState::Idle,
        ensures
            final(self).wf(),
            final(self).spec_capacity() == old(self).spec_capacity(),
            final(self).spec_dropped_unknown() == old(self).spec_dropped_unknown(),
            registration_ok ==> final(self).spec_state() == PollerState::Draining
                && final(self).spec_fatal() == old(self).spec_fatal(),
            !registration_ok ==> final(self).spec_state() == PollerState::Stopped
                && final(self).spec_fatal() == Some(InputError::RegistrationFailed),
    {
        if registration_ok {
            self.state = PollerState::Draining;
        } else {
            self.state = PollerState::Stopped;
            self.fatal = Some(InputError::RegistrationFailed);
        }
    }

    /// The OS answered that the pending batch would not fit a buffer of
    /// the current capacity: doubles the capacity so the same batch can
    /// be retried whole, or stops with
    /// [`InputError::BatchResizeExhausted`] once the ceiling is passed.
    pub fn on_batch_would_not_fit(&mut self) -> (grew: bool)
        requires
            old(self).wf(),
            old(self).spec_state() == PollerState::Draining,
        ensures
            final(self).wf(),
            final(self).spec_dropped_unknown() == old(self).spec_dropped_unknown(),
            2 * old(self).spec_capacity() <= MAX_BATCH_CAPACITY ==> grew
                && final(self).spec_state() == PollerState::Draining
                && final(self).spec_capacity() == 2 * old(self).spec_capacity()
                && final(self).spec_fatal() == old(self).spec_fatal(),
            2 * old(self).spec_capacity() > MAX_BATCH_CAPACITY ==> !grew
                && final(self).spec_state() == PollerState::Stopped
                && final(self).spec_capacity() == old(self).spec_capacity()
                && final(self).spec_fatal() == Some(InputError::BatchResizeExhausted),
    {
        if self.capacity <= MAX_BATCH_CAPACITY / 2 {
            self.capacity = self.capacity * 2;
            true
        } else {
            self.state = PollerState::Stopped;
            self.fatal = Some(InputError::BatchResizeExhausted);
            false
        }
    }

    /// A batch read reported an OS-level error: the poller stops and the
    /// failure is surfaced once as [`InputError::QueryFailed`].
    pub fn on_fatal_error(&mut self)
        requires
            old(self).wf(),
            old(self).spec_state() == PollerState::Draining,
        ensures
            final(self).wf(),
            final(self).spec_state() == PollerState::Stopped,
            final(self).spec_capacity() == old(self).spec_capacity(),
            final(self).spec_dropped_unknown() == old(self).spec_dropped_unknown(),
            final(self).spec_fatal() == Some(InputError::QueryFailed),
    {
        self.state = PollerState::Stopped;
        self.fatal = Some(InputError::QueryFailed);
    }

    /// Cooperative cancellation, observed between drain steps: the poller
    /// stops without an error.
    pub fn cancel(&mut self)
        requires
            old(self).wf(),
        ensures
            final(self).wf(),
            final(self).spec_state() == PollerState::Stopped,
            final(self).spec_capacity() == old(self).spec_capacity(),
            final(self).spec_dropped_unknown() == old(self).spec_dropped_unknown(),
            final(self).spec_fatal() == old(self).spec_fatal(),
    {
        self.state = PollerState::Stopped;
    }

    /// Hands the fatal error out, once: a second call finds none.
    pub fn take_fatal(&mut self) -> (e: Option<InputError>)
        requires
            old(self).wf(),
        ensures
            final(self).wf(),
            e == old(self).spec_fatal(),
            final(self).spec_fatal() is None,
            final(self).spec_state() == old(self).spec_state(),
            final(self).spec_capacity() == old(self).spec_capacity(),
            final(self).spec_dropped_unknown() == old(self).spec_dropped_unknown(),
    {
        let e = self.fatal;
        self.fatal = None;
        e
    }

    pub fn state(&self) -> (s: PollerState)
        ensures
            s == self.spec_state(),
    {
        self.state
    }

    pub fn capacity(&self) -> (c: usize)
        ensures
            c == self.spec_capacity(),
    {
        self.capacity
    }

    pub fn dropped_unknown(&self) -> (n: u64)
        ensures
            n == self.spec_dropped_unknown(),
    {
        self.dropped_unknown
    }

    /// Dispatches one drained batch: for each entry whose source handle
    /// the registry holds, in the order the OS reported them, emits an
    /// event stamped with `now` and decoded for the device's class;
    /// counts and drops each entry whose source is unregistered.
    pub fn dispatch_batch(
        &mut self,
        entries: &Vec<RawEntry>,
        registry: &DeviceRegistry,
        now: u64,
    ) -> (events: Vec<RawInputEvent>)
        requires
            old(self).wf(),
            old(self).spec_state() == PollerState::Draining,
        ensures
            final(self).wf(),
            final(self).spec_state() == PollerState::Draining,
            final(self).spec_capacity() == old(self).spec_capacity(),
            final(self).spec_fatal() == old(self).spec_fatal(),
            final(self).spec_dropped_unknown() == sat_add_u64(
                old(self).spec_dropped_unknown(),
                spec_unknown_count(registry@, entries@),
            ),
            ({
                let idx = spec_known_indices(registry@, entries@);
                &&& events@.len() == idx.len()
                &&& forall|k: int|
                    0 <= k < idx.len() ==> spec_event_matches(
                        registry@,
                        entries@[idx[k]],
                        #[trigger] events@[k],
                        now,
                    )
            }),
    {
        let mut events: Vec<RawInputEvent> = Vec::new();
        let mut i: usize = 0;
        while i < entries.len()
            invariant
                0 <= i <= entries@.len(),
                self.wf(),
                self.spec_state() == PollerState::Draining,
                self.spec_state() == old(self).spec_state(),
                self.spec_capacity() == old(self).spec_capacity(),
                self.spec_fatal() == old(self).spec_fatal(),
                self.spec_dropped_unknown() == sat_add_u64(
                    old(self).spec_dropped_unknown(),
                    spec_unknown_count(registry@, entries@.subrange(0, i as int)),
                ),
                ({
                    let idx = spec_known_indices(registry@, entries@.subrange(0, i as int));
                    &&& events@.len() == idx.len()
                    &&& forall|k: int|
                        0 <= k < idx.len() ==> 0 <= idx[k] < i && spec_event_matches(
                            registry@,
                            entries@[idx[k]],
                            #[trigger] events@[k],
                            now,
                        )
                }),
            decreases entries@.len() - i,
        {
            let ghost ev0 = events@;
            let ghost idx0 = spec_known_indices(registry@, entries@.subrange(0, i as int));
            let e = &entries[i];
            let ghost known = spec_known(registry@, entries@[i as int]);
            match registry.resolve(e.source) {
                Some(rec) => {
                    let payload = decode_payload(rec.device_class, &e.data);
                    events.push(RawInputEvent { timestamp: now, source: e.source, payload });
                },
                None => {
                    if self.dropped_unknown < u64::MAX {
                        self.dropped_unknown = self.dropped_unknown + 1;
                    }
                },
            }
            proof {
                lemma_known_indices_step(registry@, entries@, i as int);
                let idx1 = spec_known_indices(registry@, entries@.subrange(0, i + 1));
                if known {
                    assert(idx1 == idx0.push(i as int));
                    assert(ev0.push(events@.last()) == events@);
                } else {
                    assert(idx1 == idx0);
                    assert(events@ == ev0);
                }
                assert(events@.len() == idx1.len());
                assert forall|k: int| 0 <= k < idx1.len() implies 0 <= #[trigger] idx1[k] < i + 1
                    && spec_event_matches(registry@, entries@[idx1[k]], events@[k], now) by {
                    if k < idx0.len() {
                        assert(idx1[k] == idx0[k]);
                        assert(events@[k] == ev0[k]);
                    } else {
                        assert(known);
                        assert(idx1[k] == i as int);
                        assert(events@[k] == events@.last());
                    }
                }
            }
            i = i + 1;
        }
        proof {
            assert(entries@.subrange(0, i as int) =~= entries@);
        }
        events
    }
}

} // verus!
