use raw_input::device::{ClassFilter, DeviceClass, DeviceHandle};
use raw_input::enumerate::{assemble_records, filter_devices, resolve_device, RawDeviceEntry, ResolveOutcome};
use raw_input::error::InputError;
use raw_input::wide::decode_wide;

fn units(s: &str) -> Vec<u16> {
    s.chars().map(|c| c as u16).collect()
}

fn entry(handle: u64, class_code: u32) -> RawDeviceEntry {
    RawDeviceEntry { handle: DeviceHandle(handle), class_code }
}

fn resolved(path: &str, name: &str) -> ResolveOutcome {
    ResolveOutcome::Resolved { path_units: units(path), name_units: units(name) }
}

#[test]
fn decode_takes_prefix_before_first_nul() {
    let mut buf = units("Acme Mouse");
    buf.push(0);
    buf.push(0);
    buf.push(0);
    assert_eq!(decode_wide(&buf).unwrap(), "Acme Mouse");
}

#[test]
fn decode_without_nul_takes_everything() {
    assert_eq!(decode_wide(&units("ab")).unwrap(), "ab");
}

#[test]
fn decode_stops_at_embedded_nul() {
    let mut buf = units("ab");
    buf.push(0);
    buf.extend_from_slice(&units("cd"));
    assert_eq!(decode_wide(&buf).unwrap(), "ab");
}

#[test]
fn decode_of_all_nuls_is_empty() {
    assert_eq!(decode_wide(&vec![0u16, 0, 0]).unwrap(), "");
    assert_eq!(decode_wide(&Vec::new()).unwrap(), "");
}

#[test]
fn decode_rejects_surrogate_unit() {
    assert!(decode_wide(&vec![0xD800u16]).is_none());
    assert!(decode_wide(&vec![0x41u16, 0xDFFF, 0x42]).is_none());
}

#[test]
fn surrogate_after_nul_does_not_matter() {
    assert_eq!(decode_wide(&vec![0x41u16, 0, 0xD800]).unwrap(), "A");
}

#[test]
fn filter_keeps_matching_classes_in_order() {
    let entries = vec![entry(1, 0), entry(2, 1), entry(3, 0), entry(4, 2), entry(5, 9)];
    let mice = filter_devices(&entries, ClassFilter::Mouse);
    assert_eq!(mice.len(), 2);
    assert_eq!(mice[0].handle, DeviceHandle(1));
    assert_eq!(mice[1].handle, DeviceHandle(3));
    let any = filter_devices(&entries, ClassFilter::Any);
    // An undefined class code never survives, even under `Any`.
    assert_eq!(any.len(), 4);
    let other = filter_devices(&entries, ClassFilter::OtherHid);
    assert_eq!(other.len(), 1);
    assert_eq!(other[0].handle, DeviceHandle(4));
}

#[test]
fn resolve_success_builds_full_record() {
    let rec = resolve_device(&entry(7, 0), &resolved("\\\\?\\HID#dev", "Acme Mouse")).unwrap();
    assert_eq!(rec.handle, DeviceHandle(7));
    assert_eq!(rec.device_class, DeviceClass::Mouse);
    assert_eq!(rec.product_name, "Acme Mouse");
    assert_eq!(rec.path, "\\\\?\\HID#dev");
}

#[test]
fn resolve_path_failure_is_query_failed() {
    let r = resolve_device(&entry(7, 0), &ResolveOutcome::PathFailed);
    assert_eq!(r.unwrap_err(), InputError::QueryFailed);
}

#[test]
fn resolve_open_failure_skips_device() {
    let r = resolve_device(&entry(7, 1), &ResolveOutcome::OpenFailed);
    assert_eq!(r.unwrap_err(), InputError::DeviceOpenFailed);
}

#[test]
fn resolve_name_failure_skips_device() {
    let r = resolve_device(&entry(7, 1), &ResolveOutcome::NameFailed);
    assert_eq!(r.unwrap_err(), InputError::ProductNameUnavailable);
}

#[test]
fn resolve_null_handle_cannot_open() {
    let r = resolve_device(&entry(0, 0), &resolved("p", "n"));
    assert_eq!(r.unwrap_err(), InputError::DeviceOpenFailed);
}

#[test]
fn resolve_undecodable_path_is_query_failed() {
    let out = ResolveOutcome::Resolved { path_units: vec![0xD900u16], name_units: units("n") };
    let r = resolve_device(&entry(7, 0), &out);
    assert_eq!(r.unwrap_err(), InputError::QueryFailed);
}

#[test]
fn resolve_undecodable_name_is_unavailable() {
    let out = ResolveOutcome::Resolved { path_units: units("p"), name_units: vec![0xD900u16] };
    let r = resolve_device(&entry(7, 0), &out);
    assert_eq!(r.unwrap_err(), InputError::ProductNameUnavailable);
}

#[test]
fn resolve_empty_name_is_unavailable() {
    let out = ResolveOutcome::Resolved { path_units: units("p"), name_units: vec![0u16, 0] };
    let r = resolve_device(&entry(7, 0), &out);
    assert_eq!(r.unwrap_err(), InputError::ProductNameUnavailable);
}

#[test]
fn assemble_skips_failed_device_keeps_rest() {
    // Three raw devices; the second one's path query fails: exactly the
    // first and third make records, in order, and no error escapes.
    let entries = vec![entry(1, 0), entry(2, 0), entry(3, 0)];
    let outcomes = vec![
        resolved("p1", "First"),
        ResolveOutcome::PathFailed,
        resolved("p3", "Third"),
    ];
    let records = assemble_records(&entries, &outcomes);
    assert_eq!(records.len(), 2);
    assert_eq!(records[0].handle, DeviceHandle(1));
    assert_eq!(records[0].product_name, "First");
    assert_eq!(records[1].handle, DeviceHandle(3));
    assert_eq!(records[1].product_name, "Third");
}

#[test]
fn assemble_excludes_partially_resolved_devices() {
    // A device that fails any step is absent from the result, never
    // present with empty or placeholder fields.
    let entries = vec![entry(1, 0), entry(2, 1), entry(3, 2), entry(4, 1)];
    let outcomes = vec![
        ResolveOutcome::OpenFailed,
        ResolveOutcome::Resolved { path_units: units("p"), name_units: vec![0u16] },
        ResolveOutcome::NameFailed,
        resolved("p4", "Plain Keyboard"),
    ];
    let records = assemble_records(&entries, &outcomes);
    assert_eq!(records.len(), 1);
    assert_eq!(records[0].handle, DeviceHandle(4));
    assert_eq!(records[0].device_class, DeviceClass::Keyboard);
    assert_eq!(records[0].product_name, "Plain Keyboard");
    for rec in &records {
        assert!(!rec.product_name.is_empty());
        assert_ne!(rec.handle, DeviceHandle(0));
    }
}
