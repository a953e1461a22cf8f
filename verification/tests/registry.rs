use raw_input::device::{DeviceClass, DeviceHandle, DeviceRecord};
use raw_input::registry::DeviceRegistry;

fn record(handle: u64, class: DeviceClass, name: &str) -> DeviceRecord {
    DeviceRecord {
        handle: DeviceHandle(handle),
        device_class: class,
        product_name: name.to_string(),
        path: format!("\\\\?\\HID#{}", handle),
    }
}

#[test]
fn register_then_resolve_finds_the_record() {
    let mut reg = DeviceRegistry::new();
    assert_eq!(reg.len(), 0);
    reg.register(record(11, DeviceClass::Mouse, "Acme Mouse"));
    assert_eq!(reg.len(), 1);
    let rec = reg.resolve(DeviceHandle(11)).unwrap();
    assert_eq!(rec.handle, DeviceHandle(11));
    assert_eq!(rec.device_class, DeviceClass::Mouse);
    assert_eq!(rec.product_name, "Acme Mouse");
}

#[test]
fn resolve_unregistered_handle_is_absent() {
    let mut reg = DeviceRegistry::new();
    assert!(reg.resolve(DeviceHandle(9)).is_none());
    reg.register(record(11, DeviceClass::Mouse, "Acme Mouse"));
    // A different handle never answers with another device's record.
    assert!(reg.resolve(DeviceHandle(9)).is_none());
    reg.unregister(DeviceHandle(11));
    // Nothing stale after removal either.
    assert!(reg.resolve(DeviceHandle(11)).is_none());
}

#[test]
fn register_overwrites_same_handle() {
    let mut reg = DeviceRegistry::new();
    reg.register(record(11, DeviceClass::Mouse, "Old Name"));
    reg.register(record(11, DeviceClass::Mouse, "New Name"));
    assert_eq!(reg.len(), 1);
    assert_eq!(reg.resolve(DeviceHandle(11)).unwrap().product_name, "New Name");
}

#[test]
fn unregister_twice_is_a_noop() {
    let mut reg = DeviceRegistry::new();
    reg.register(record(11, DeviceClass::Keyboard, "Plain Keyboard"));
    reg.register(record(12, DeviceClass::Mouse, "Acme Mouse"));
    assert!(reg.unregister(DeviceHandle(11)));
    assert_eq!(reg.len(), 1);
    // The second call removes nothing, reports absence, and errors never.
    assert!(!reg.unregister(DeviceHandle(11)));
    assert_eq!(reg.len(), 1);
    assert!(reg.resolve(DeviceHandle(12)).is_some());
}

#[test]
fn unregister_missing_handle_is_a_noop() {
    let mut reg = DeviceRegistry::new();
    assert!(!reg.unregister(DeviceHandle(77)));
    assert_eq!(reg.len(), 0);
}
