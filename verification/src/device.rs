use vstd::prelude::*;

verus! {

/// Opaque OS-assigned device handle: stable for the device's connected
/// lifetime, compared by value, never dereferenced by this library.
/// The value zero is never a valid handle.
#[derive(Clone, Copy, Debug, Hash, PartialEq, Eq, Structural)]
pub struct DeviceHandle(pub u64);

/// The class a device reports itself as.
#[derive(Clone, Copy, Debug, PartialEq, Eq, Structural)]
pub enum DeviceClass {
    Mouse,
    Keyboard,
    OtherHid,
}

/// What the caller asks the enumerator for.
#[derive(Clone, Copy, Debug, PartialEq, Eq, Structural)]
pub enum ClassFilter {
    Mouse,
    Keyboard,
    OtherHid,
    Any,
}

/// Identity of one physical input device. Immutable once created.
#[derive(Debug)]
pub struct DeviceRecord {
    /// Unique within a registry; never zero.
    pub handle: DeviceHandle,
    pub device_class: DeviceClass,
    /// Human-readable name; never empty in a record the enumerator returns.
    pub product_name: String,
    /// OS-internal device path, used only to open a query handle.
    pub path: String,
}

/// A record the enumerator may return: the handle is set and the
/// product name is not empty.
pub open spec fn valid_record(r: DeviceRecord) -> bool {
    r.handle.0 != 0 && r.product_name@.len() > 0
}

/// Class code as the OS reports it in a device-list entry.
pub open spec fn spec_class_of_code(code: u32) -> Option<DeviceClass> {
    if code == 0 {
        Some(DeviceClass::Mouse)
    } else if code == 1 {
        Some(DeviceClass::Keyboard)
    } else if code == 2 {
        Some(DeviceClass::OtherHid)
    } else {
        None
    }
}

/// Maps the class code of a device-list entry to a class; codes the OS
/// does not define resolve to `None`.
pub fn class_of_code(code: u32) -> (r: Option<DeviceClass>)
    ensures
        r == spec_class_of_code(code),
{
    if code == 0 {
        Some(DeviceClass::Mouse)
    } else if code == 1 {
        Some(DeviceClass::Keyboard)
    } else if code == 2 {
        Some(DeviceClass::OtherHid)
    } else {
        None
    }
}

pub open spec fn spec_class_matches(filter: ClassFilter, class: DeviceClass) -> bool {
    match filter {
        ClassFilter::Any => true,
        ClassFilter::Mouse => class == DeviceClass::Mouse,
        ClassFilter::Keyboard => class == DeviceClass::Keyboard,
        ClassFilter::OtherHid => class == DeviceClass::OtherHid,
    }
}

/// Whether a device of the given class survives the filter.
pub fn class_matches(filter: ClassFilter, class: DeviceClass) -> (r: bool)
    ensures
        r == spec_class_matches(filter, class),
{
    match filter {
        ClassFilter::Any => true,
        ClassFilter::Mouse => class == DeviceClass::Mouse,
        ClassFilter::Keyboard => class == DeviceClass::Keyboard,
        ClassFilter::OtherHid => class == DeviceClass::OtherHid,
    }
}

/// HID usage page covering generic desktop controls.
pub const USAGE_PAGE_GENERIC: u16 = 1;

/// HID usage id of a mouse on the generic desktop page.
pub const USAGE_GENERIC_MOUSE: u16 = 2;

/// HID usage id of a keyboard on the generic desktop page.
pub const USAGE_GENERIC_KEYBOARD: u16 = 6;

/// Registration flag asking for events even while the delivery target is
/// not in the foreground.
pub const FLAG_INPUT_SINK: u32 = 0x100;

/// Parameters handed to the OS when registering interest in a device
/// class; the caller adds its event-delivery target.
#[derive(Clone, Copy, Debug, PartialEq, Eq, Structural)]
pub struct InterestRequest {
    pub usage_page: u16,
    pub usage_id: u16,
    pub flags: u32,
}

pub open spec fn spec_registration_request(class: DeviceClass) -> Option<InterestRequest> {
    match class {
        DeviceClass::Mouse => Some(
            InterestRequest {
                usage_page: USAGE_PAGE_GENERIC,
                usage_id: USAGE_GENERIC_MOUSE,
                flags: FLAG_INPUT_SINK,
            },
        ),
        DeviceClass::Keyboard => Some(
            InterestRequest {
                usage_page: USAGE_PAGE_GENERIC,
                usage_id: USAGE_GENERIC_KEYBOARD,
                flags: FLAG_INPUT_SINK,
            },
        ),
        DeviceClass::OtherHid => None,
    }
}

/// The registration parameters for a device class. Generic HID devices
/// have no single usage id, so `OtherHid` yields no request.
pub fn registration_request(class: DeviceClass) -> (r: Option<InterestRequest>)
    ensures
        r == spec_registration_request(class),
{
    match class {
        DeviceClass::Mouse => Some(
            InterestRequest {
                usage_page: USAGE_PAGE_GENERIC,
                usage_id: USAGE_GENERIC_MOUSE,
                flags: FLAG_INPUT_SINK,
            },
        ),
        DeviceClass::Keyboard => Some(
            InterestRequest {
                usage_page: USAGE_PAGE_GENERIC,
                usage_id: USAGE_GENERIC_KEYBOARD,
                flags: FLAG_INPUT_SINK,
            },
        ),
        DeviceClass::OtherHid => None,
    }
}

/// A typed view of one enumerated device, implemented by [`Mouse`] and
/// [`Keyboard`].
pub trait Device: Sized {
    spec fn spec_product_name(&self) -> Seq<char>;

    spec fn spec_handle(&self) -> DeviceHandle;

    spec fn spec_class() -> DeviceClass;

    fn new(product_name: String, handle: DeviceHandle) -> (d: Self)
        ensures
            d.spec_product_name() == product_name@,
            d.spec_handle() == handle,
    ;

    fn get_handle(&self) -> (h: DeviceHandle)
        ensures
            h == self.spec_handle(),
    ;

    /// The class every device of this type belongs to.
    fn class() -> (c: DeviceClass)
        ensures
            c == Self::spec_class(),
    ;
}

/// One enumerated mouse.
#[derive(Debug)]
pub struct Mouse {
    pub product_name: String,
    pub handle: DeviceHandle,
}

impl Device for Mouse {
    open spec fn spec_product_name(&self) -> Seq<char> {
        self.product_name@
    }

    open spec fn spec_handle(&self) -> DeviceHandle {
        self.handle
    }

    open spec fn spec_class() -> DeviceClass {
        DeviceClass::Mouse
    }

    fn new(product_name: String, handle: DeviceHandle) -> (d: Self) {
        Mouse { product_name, handle }
    }

    fn get_handle(&self) -> (h: DeviceHandle) {
        self.handle
    }

    fn class() -> (c: DeviceClass) {
        DeviceClass::Mouse
    }
}

/// One enumerated keyboard.
#[derive(Debug)]
pub struct Keyboard {
    pub product_name: String,
    pub handle: DeviceHandle,
}

impl Device for Keyboard {
    open spec fn spec_product_name(&self) -> Seq<char> {
        self.product_name@
    }

    open spec fn spec_handle(&self) -> DeviceHandle {
        self.handle
    }

    open spec fn spec_class() -> DeviceClass {
        DeviceClass::Keyboard
    }

    fn new(product_name: String, handle: DeviceHandle) -> (d: Self) {
        Keyboard { product_name, handle }
    }

    fn get_handle(&self) -> (h: DeviceHandle) {
        self.handle
    }

    fn class() -> (c: DeviceClass) {
        DeviceClass::Keyboard
    }
}

} // verus!
