use raw_input::device::{
    class_matches, class_of_code, registration_request, ClassFilter, Device, DeviceClass,
    DeviceHandle, DeviceRecord, Keyboard, Mouse, FLAG_INPUT_SINK, USAGE_GENERIC_KEYBOARD,
    USAGE_GENERIC_MOUSE, USAGE_PAGE_GENERIC,
};
use raw_input::devices::Devices;

fn record(handle: u64, class: DeviceClass, name: &str) -> DeviceRecord {
    DeviceRecord {
        handle: DeviceHandle(handle),
        device_class: class,
        product_name: name.to_string(),
        path: format!("\\\\?\\HID#{}", handle),
    }
}

#[test]
fn new_container_is_empty() {
    let d = Devices::new();
    assert!(d.mice().is_empty());
    assert!(d.keyboards().is_empty());
}

#[test]
fn records_are_sorted_by_class() {
    let mut d = Devices::new();
    let records = vec![
        record(1, DeviceClass::Mouse, "Acme Mouse"),
        record(2, DeviceClass::Keyboard, "Plain Keyboard"),
        record(3, DeviceClass::OtherHid, "Pedal Board"),
        record(4, DeviceClass::Mouse, "Other Mouse"),
    ];
    d.add_all_devices(&records);
    assert_eq!(d.mice().len(), 2);
    assert_eq!(d.mice()[0].product_name, "Acme Mouse");
    assert_eq!(d.mice()[0].handle, DeviceHandle(1));
    assert_eq!(d.mice()[1].product_name, "Other Mouse");
    assert_eq!(d.mice()[1].handle, DeviceHandle(4));
    assert_eq!(d.keyboards().len(), 1);
    assert_eq!(d.keyboards()[0].product_name, "Plain Keyboard");
    // A second batch extends rather than replaces.
    d.add_all_devices(&vec![record(5, DeviceClass::Keyboard, "Second Keyboard")]);
    assert_eq!(d.mice().len(), 2);
    assert_eq!(d.keyboards().len(), 2);
    assert_eq!(d.keyboards()[1].product_name, "Second Keyboard");
}

#[test]
fn typed_devices_carry_identity() {
    let m = Mouse::new("Acme Mouse".to_string(), DeviceHandle(1));
    assert_eq!(m.get_handle(), DeviceHandle(1));
    assert_eq!(m.product_name, "Acme Mouse");
    assert_eq!(Mouse::class(), DeviceClass::Mouse);
    let k = Keyboard::new("Plain Keyboard".to_string(), DeviceHandle(2));
    assert_eq!(k.get_handle(), DeviceHandle(2));
    assert_eq!(k.product_name, "Plain Keyboard");
    assert_eq!(Keyboard::class(), DeviceClass::Keyboard);
}

#[test]
fn class_codes_follow_the_list_entries() {
    assert_eq!(class_of_code(0), Some(DeviceClass::Mouse));
    assert_eq!(class_of_code(1), Some(DeviceClass::Keyboard));
    assert_eq!(class_of_code(2), Some(DeviceClass::OtherHid));
    assert_eq!(class_of_code(3), None);
    assert_eq!(class_of_code(u32::MAX), None);
}

#[test]
fn filters_match_their_class() {
    assert!(class_matches(ClassFilter::Any, DeviceClass::Mouse));
    assert!(class_matches(ClassFilter::Any, DeviceClass::OtherHid));
    assert!(class_matches(ClassFilter::Mouse, DeviceClass::Mouse));
    assert!(!class_matches(ClassFilter::Mouse, DeviceClass::Keyboard));
    assert!(class_matches(ClassFilter::Keyboard, DeviceClass::Keyboard));
    assert!(!class_matches(ClassFilter::OtherHid, DeviceClass::Mouse));
}

#[test]
fn registration_requests_use_generic_desktop_usages() {
    let m = registration_request(DeviceClass::Mouse).unwrap();
    assert_eq!(m.usage_page, USAGE_PAGE_GENERIC);
    assert_eq!(m.usage_id, USAGE_GENERIC_MOUSE);
    assert_eq!(m.flags, FLAG_INPUT_SINK);
    let k = registration_request(DeviceClass::Keyboard).unwrap();
    assert_eq!(k.usage_page, 1);
    assert_eq!(k.usage_id, 6);
    assert_eq!(k.flags, 0x100);
    assert!(registration_request(DeviceClass::OtherHid).is_none());
}
