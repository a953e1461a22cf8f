use vstd::prelude::*;
use crate::device::{
    class_matches, class_of_code, spec_class_matches, spec_class_of_code, valid_record,
    ClassFilter, DeviceHandle, DeviceRecord,
};
use crate::error::InputError;
use crate::wide::{
    decode_wide, decodes_to, lemma_prefix_len_le, prefix_decodable, prefix_len, wide_prefix,
};

verus! {

// The enumerator turns the OS's raw device list into fully resolved
// `DeviceRecord`s. The caller retrieves the list and, for each entry that
// survives the class filter, runs the per-device OS queries (path, open,
// product name) and reports their outcome; this module decides which
// entries survive, which outcomes make a record, and which devices are
// skipped. Per-device failures never abort the whole enumeration.

/// One entry of the OS device list: the device's handle and the class
/// code the OS reported for it.
#[derive(Clone, Copy, Debug, PartialEq, Eq, Structural)]
pub struct RawDeviceEntry {
    pub handle: DeviceHandle,
    pub class_code: u32,
}

/// Whether the entry's reported class is known and survives the filter.
pub open spec fn spec_entry_matches(e: RawDeviceEntry, filter: ClassFilter) -> bool {
    match spec_class_of_code(e.class_code) {
        Some(c) => spec_class_matches(filter, c),
        None => false,
    }
}

/// Keeps, in order, exactly the entries whose class is known and matches
/// the filter.
pub fn filter_devices(entries: &Vec<RawDeviceEntry>, filter: ClassFilter) -> (r: Vec<
    RawDeviceEntry,
>)
    ensures
        r@ == entries@.filter(|e: RawDeviceEntry| spec_entry_matches(e, filter)),
{
    let ghost pred = |e: RawDeviceEntry| spec_entry_matches(e, filter);
    let mut r: Vec<RawDeviceEntry> = Vec::new();
    let mut i: usize = 0;
    proof {
        reveal(Seq::filter);
    }
    while i < entries.len()
        invariant
            0 <= i <= entries@.len(),
            r@ == entries@.subrange(0, i as int).filter(pred),
            pred == (|e: RawDeviceEntry| spec_entry_matches(e, filter)),
        decreases entries@.len() - i,
    {
        let e = entries[i];
        let keep = match class_of_code(e.class_code) {
            Some(c) => class_matches(filter, c),
            None => false,
        };
        if keep {
            r.push(e);
        }
        proof {
            reveal(Seq::filter);
            let prefix1 = entries@.subrange(0, i + 1);
            assert(prefix1.drop_last() =~= entries@.subrange(0, i as int));
            assert(prefix1.last() == e);
        }
        i = i + 1;
    }
    proof {
        assert(entries@.subrange(0, i as int) =~= entries@);
    }
    r
}

/// What the per-device OS queries produced for one entry: the first
/// failed step, or the two filled buffers.
#[derive(Debug)]
pub enum ResolveOutcome {
    /// The sized query for the device path failed.
    PathFailed,
    /// No query-only handle could be opened on the path.
    OpenFailed,
    /// The bounded product-name query failed or the name did not fit.
    NameFailed,
    /// Every query succeeded: the path and product-name buffers, as
    /// filled (zero-padded) by the OS.
    Resolved { path_units: Vec<u16>, name_units: Vec<u16> },
}

/// The outcomes under which a device resolves to a record: all queries
/// succeeded, the handle is set, both buffers decode, and the decoded
/// product name is not empty.
pub open spec fn spec_resolve_ok(e: RawDeviceEntry, o: ResolveOutcome) -> bool {
    match o {
        ResolveOutcome::Resolved { path_units, name_units } => {
            &&& e.handle.0 != 0
            &&& prefix_decodable(path_units@)
            &&& prefix_decodable(name_units@)
            &&& prefix_len(name_units@) > 0
        },
        _ => false,
    }
}

/// The error a device is skipped with when it does not resolve.
pub open spec fn spec_resolve_error(e: RawDeviceEntry, o: ResolveOutcome) -> InputError {
    match o {
        ResolveOutcome::PathFailed => InputError::QueryFailed,
        ResolveOutcome::OpenFailed => InputError::DeviceOpenFailed,
        ResolveOutcome::NameFailed => InputError::ProductNameUnavailable,
        ResolveOutcome::Resolved { path_units, name_units } => {
            if e.handle.0 == 0 {
                // A null handle cannot be opened for the name query.
                InputError::DeviceOpenFailed
            } else if !prefix_decodable(path_units@) {
                InputError::QueryFailed
            } else {
                InputError::ProductNameUnavailable
            }
        },
    }
}

/// The record carries the entry's handle and class, and spells out the
/// decoded product-name and path buffers.
pub open spec fn record_matches(e: RawDeviceEntry, o: ResolveOutcome, rec: DeviceRecord) -> bool {
    match o {
        ResolveOutcome::Resolved { path_units, name_units } => {
            &&& rec.handle == e.handle
            &&& Some(rec.device_class) == spec_class_of_code(e.class_code)
            &&& decodes_to(wide_prefix(name_units@), rec.product_name@)
            &&& decodes_to(wide_prefix(path_units@), rec.path@)
        },
        _ => false,
    }
}

/// Builds the record for one device from what the OS queries produced,
/// or says why the device is skipped. Succeeds exactly on the outcomes
/// of [`spec_resolve_ok`]; a returned record is always valid: its handle
/// set and its product name nonempty.
pub fn resolve_device(entry: &RawDeviceEntry, outcome: &ResolveOutcome) -> (r: Result<
    DeviceRecord,
    InputError,
>)
    requires
        spec_class_of_code(entry.class_code) is Some,
    ensures
        match r {
            Ok(rec) => spec_resolve_ok(*entry, *outcome) && record_matches(*entry, *outcome, rec)
                && valid_record(rec),
            Err(err) => !spec_resolve_ok(*entry, *outcome) && err == spec_resolve_error(
                *entry,
                *outcome,
            ),
        },
{
    match outcome {
        ResolveOutcome::PathFailed => Err(InputError::QueryFailed),
        ResolveOutcome::OpenFailed => Err(InputError::DeviceOpenFailed),
        ResolveOutcome::NameFailed => Err(InputError::ProductNameUnavailable),
        ResolveOutcome::Resolved { path_units, name_units } => {
            if entry.handle.0 == 0 {
                return Err(InputError::DeviceOpenFailed);
            }
            let path = match decode_wide(path_units) {
                Some(p) => p,
                None => {
                    return Err(InputError::QueryFailed);
                },
            };
            let name = match decode_wide(name_units) {
                Some(n) => n,
                None => {
                    return Err(InputError::ProductNameUnavailable);
                },
            };
            proof {
                // The decoded name is as long as the buffer's text prefix.
                lemma_prefix_len_le(name_units@);
                lemma_prefix_len_le(path_units@);
            }
            if name.as_str().is_empty() {
                return Err(InputError::ProductNameUnavailable);
            }
            let class = match class_of_code(entry.class_code) {
                Some(c) => c,
                None => {
                    // Unreachable: the entry's class code is known.
                    return Err(InputError::QueryFailed);
                },
            };
            Ok(
                DeviceRecord {
                    handle: entry.handle,
                    device_class: class,
                    product_name: name,
                    path,
                },
            )
        },
    }
}

/// The positions, in order, of the devices that resolve to records.
pub open spec fn spec_ok_indices(
    entries: Seq<RawDeviceEntry>,
    outcomes: Seq<ResolveOutcome>,
) -> Seq<int>
    decreases entries.len(),
{
    if entries.len() == 0 {
        Seq::empty()
    } else {
        let rest = spec_ok_indices(entries.drop_last(), outcomes.drop_last());
        if spec_resolve_ok(entries.last(), outcomes.last()) {
            rest.push(entries.len() - 1)
        } else {
            rest
        }
    }
}

/// Extending a prefix by one entry appends its position when it
/// resolves and changes nothing otherwise.
proof fn lemma_ok_indices_step(
    entries: Seq<RawDeviceEntry>,
    outcomes: Seq<ResolveOutcome>,
    i: int,
)
    requires
        0 <= i < entries.len(),
        entries.len() == outcomes.len(),
    ensures
        spec_ok_indices(entries.subrange(0, i + 1), outcomes.subrange(0, i + 1))
            == if spec_resolve_ok(entries[i], outcomes[i]) {
            spec_ok_indices(entries.subrange(0, i), outcomes.subrange(0, i)).push(i)
        } else {
            spec_ok_indices(entries.subrange(0, i), outcomes.subrange(0, i))
        },
{
    let cur = entries.subrange(0, i + 1);
    let curo = outcomes.subrange(0, i + 1);
    assert(cur.drop_last() =~= entries.subrange(0, i));
    assert(curo.drop_last() =~= outcomes.subrange(0, i));
    assert(cur.last() == entries[i]);
    assert(curo.last() == outcomes[i]);
}

/// Builds the records for a batch of filtered entries, one outcome per
/// entry. Exactly the devices whose outcome resolves appear, in the order
/// the OS listed them; a device that fails any step is absent, never
/// present with default fields.
pub fn assemble_records(
    entries: &Vec<RawDeviceEntry>,
    outcomes: &Vec<ResolveOutcome>,
) -> (r: Vec<DeviceRecord>)
    requires
        entries@.len() == outcomes@.len(),
        forall|j: int|
            0 <= j < entries@.len() ==> spec_class_of_code(
                (#[trigger] entries@[j]).class_code,
            ) is Some,
    ensures
        ({
            let idx = spec_ok_indices(entries@, outcomes@);
            &&& r@.len() == idx.len()
            &&& forall|k: int|
                0 <= k < idx.len() ==> record_matches(
                    entries@[idx[k]],
                    outcomes@[idx[k]],
                    #[trigger] r@[k],
                )
            &&& forall|k: int| 0 <= k < r@.len() ==> valid_record(#[trigger] r@[k])
        }),
{
    let mut r: Vec<DeviceRecord> = Vec::new();
    let mut i: usize = 0;
    while i < entries.len()
        invariant
            0 <= i <= entries@.len(),
            entries@.len() == outcomes@.len(),
            forall|j: int|
                0 <= j < entries@.len() ==> spec_class_of_code(
                    (#[trigger] entries@[j]).class_code,
                ) is Some,
            ({
                let idx = spec_ok_indices(
                    entries@.subrange(0, i as int),
                    outcomes@.subrange(0, i as int),
                );
                &&& r@.len() == idx.len()
                &&& forall|k: int|
                    0 <= k < idx.len() ==> 0 <= idx[k] < i && record_matches(
                        entries@[idx[k]],
                        outcomes@[idx[k]],
                        #[trigger] r@[k],
                    )
                &&& forall|k: int| 0 <= k < r@.len() ==> valid_record(#[trigger] r@[k])
            }),
        decreases entries@.len() - i,
    {
        let ghost r0 = r@;
        let ghost idx0 = spec_ok_indices(
            entries@.subrange(0, i as int),
            outcomes@.subrange(0, i as int),
        );
        let resolved = resolve_device(&entries[i], &outcomes[i]);
        let ghost got_record = resolved is Ok;
        match resolved {
            Ok(rec) => {
                r.push(rec);
            },
            Err(_) => {},
        }
        proof {
            lemma_ok_indices_step(entries@, outcomes@, i as int);
            let idx1 = spec_ok_indices(
                entries@.subrange(0, i + 1),
                outcomes@.subrange(0, i + 1),
            );
            if got_record {
                assert(idx1 == idx0.push(i as int));
                assert(r0.push(r@.last()) == r@);
            } else {
                assert(idx1 == idx0);
                assert(r@ == r0);
            }
            assert(r@.len() == idx1.len());
            assert forall|k: int| 0 <= k < idx1.len() implies 0 <= #[trigger] idx1[k] < i + 1
                && record_matches(entries@[idx1[k]], outcomes@[idx1[k]], r@[k]) && valid_record(
                r@[k],
            ) by {
                if k < idx0.len() {
                    assert(idx1[k] == idx0[k]);
                    assert(r@[k] == r0[k]);
                } else {
                    assert(got_record);
                    assert(idx1[k] == i as int);
                    assert(r@[k] == r@.last());
                }
            }
        }
        i = i + 1;
    }
    proof {
        assert(entries@.subrange(0, i as int) =~= entries@);
        assert(outcomes@.subrange(0, i as int) =~= outcomes@);
    }
    r
}

/// The surviving positions are in range, strictly increasing (the order
/// of the OS list is kept), and are exactly the positions that resolve.
pub proof fn lemma_ok_indices_ordered(
    entries: Seq<RawDeviceEntry>,
    outcomes: Seq<ResolveOutcome>,
)
    requires
        entries.len() == outcomes.len(),
    ensures
        ({
            let idx = spec_ok_indices(entries, outcomes);
            &&& forall|k: int| 0 <= k < idx.len() ==> 0 <= #[trigger] idx[k] < entries.len()
            &&& forall|k1: int, k2: int|
                0 <= k1 < k2 < idx.len() ==> #[trigger] idx[k1] < #[trigger] idx[k2]
            &&& forall|k: int|
                0 <= k < idx.len() ==> spec_resolve_ok(
                    entries[#[trigger] idx[k]],
                    outcomes[idx[k]],
                )
            &&& forall|j: int|
                0 <= j < entries.len() && spec_resolve_ok(#[trigger] entries[j], outcomes[j])
                    ==> spec_ok_indices(entries, outcomes).contains(j)
        }),
    decreases entries.len(),
{
    if entries.len() > 0 {
        let epre = entries.drop_last();
        let opre = outcomes.drop_last();
        lemma_ok_indices_ordered(epre, opre);
        let rest = spec_ok_indices(epre, opre);
        let idx = spec_ok_indices(entries, outcomes);
        assert forall|j: int|
            0 <= j < entries.len() && spec_resolve_ok(#[trigger] entries[j], outcomes[j])
            implies idx.contains(j) by {
            if j == entries.len() - 1 {
                assert(entries.last() == entries[j]);
                assert(outcomes.last() == outcomes[j]);
                assert(idx == rest.push(j));
                assert(idx[idx.len() - 1] == j);
            } else {
                assert(epre[j] == entries[j]);
                assert(opre[j] == outcomes[j]);
                assert(spec_resolve_ok(epre[j], opre[j]));
                assert(rest.contains(j));
                let w = choose|w: int| 0 <= w < rest.len() && rest[w] == j;
                assert(idx[w] == j);
            }
        }
        assert forall|k: int| 0 <= k < idx.len() implies 0 <= #[trigger] idx[k] < entries.len()
            && spec_resolve_ok(entries[idx[k]], outcomes[idx[k]]) by {
            if k < rest.len() {
                assert(idx[k] == rest[k]);
                assert(epre[rest[k]] == entries[rest[k]]);
                assert(opre[rest[k]] == outcomes[rest[k]]);
            } else {
                assert(spec_resolve_ok(entries.last(), outcomes.last()));
                assert(idx[k] == entries.len() - 1);
            }
        }
        assert forall|k1: int, k2: int| 0 <= k1 < k2 < idx.len() implies #[trigger] idx[k1]
            < #[trigger] idx[k2] by {
            assert(idx[k1] == rest[k1]);
            if k2 < rest.len() {
                assert(idx[k2] == rest[k2]);
            } else {
                assert(0 <= rest[k1] < epre.len());
                assert(idx[k2] == entries.len() - 1);
            }
        }
    }
}

} // verus!
