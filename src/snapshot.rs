//! The two device descriptions the server gives, as plain values, and the
//! product-id property of tablets.
use vstd::prelude::*;
use crate::fixed::Fixed;

verus! {

/// How a device is attached, as the per-class query reports it.
#[derive(Clone, Copy, Debug, PartialEq, Eq, Structural)]
pub enum DeviceUse {
    MasterPointer,
    MasterKeyboard,
    SlavePointer,
    SlaveKeyboard,
    FloatingSlave,
    Other,
}

/// A valuator (axis) of a device.
#[derive(Clone, Debug)]
pub struct ValuatorClass {
    /// Position of the valuator in motion events.
    pub number: u16,
    /// Whether it reports absolute values.
    pub absolute: bool,
    /// The name of its label atom, when that resolved.
    pub label: Option<Vec<u8>>,
    pub min: Fixed,
    pub max: Fixed,
}

/// One input class of a device.
#[derive(Clone, Debug)]
pub enum ClassInfo {
    Button { num_buttons: u16 },
    Valuator(ValuatorClass),
    Other,
}

/// A device as the per-class query describes it.
#[derive(Clone, Debug)]
pub struct QueriedDevice {
    pub device_id: u16,
    pub device_use: DeviceUse,
    /// The master device this one is attached to; for a master, its paired master.
    pub attachment: u16,
    pub name: Vec<u8>,
    pub classes: Vec<ClassInfo>,
}

/// A device as the device list describes it.
#[derive(Clone, Debug)]
pub struct ListedDevice {
    pub device_id: u16,
    /// The name of the device's type atom; `None` when the device has no type
    /// or the atom did not resolve.
    pub type_label: Option<Vec<u8>>,
    /// The human-readable name, as sent; it counts only when it is UTF-8.
    pub name: Vec<u8>,
}

/// Vendor and product id of a USB device.
#[derive(Clone, Copy, Debug, PartialEq, Eq, Structural)]
pub struct UsbId {
    pub vid: u16,
    pub pid: u16,
}

/// The items of a device property, by item width.
#[derive(Clone, Debug)]
pub enum PropertyItems {
    Data8(Vec<u8>),
    Data16(Vec<u16>),
    Data32(Vec<u32>),
    Invalid,
}

/// The vendor and product id held in the first two items of a product-id
/// property, of any item width.
pub open spec fn usb_id_spec(items: PropertyItems) -> Option<UsbId> {
    match items {
        PropertyItems::Data8(d) => if d@.len() >= 2 {
            Some(UsbId { vid: d@[0] as u16, pid: d@[1] as u16 })
        } else {
            None
        },
        PropertyItems::Data16(d) => if d@.len() >= 2 {
            Some(UsbId { vid: d@[0], pid: d@[1] })
        } else {
            None
        },
        PropertyItems::Data32(d) => if d@.len() >= 2 && d@[0] <= u16::MAX && d@[1] <= u16::MAX {
            Some(UsbId { vid: d@[0] as u16, pid: d@[1] as u16 })
        } else {
            None
        },
        PropertyItems::Invalid => None,
    }
}

/// Reads a tablet's vendor and product id from its product-id property.
pub fn usb_id_from_property(items: &PropertyItems) -> (r: Option<UsbId>)
    ensures
        r == usb_id_spec(*items),
{
    match items {
        PropertyItems::Data8(d) => if d.len() >= 2 {
            Some(UsbId { vid: d[0] as u16, pid: d[1] as u16 })
        } else {
            None
        },
        PropertyItems::Data16(d) => if d.len() >= 2 {
            Some(UsbId { vid: d[0], pid: d[1] })
        } else {
            None
        },
        PropertyItems::Data32(d) => if d.len() >= 2 && d[0] <= 0xFFFF && d[1] <= 0xFFFF {
            Some(UsbId { vid: d[0] as u16, pid: d[1] as u16 })
        } else {
            None
        },
        PropertyItems::Invalid => None,
    }
}

/// Relies on `std::str::from_utf8`: it accepts exactly the well-formed UTF-8
/// byte strings.
#[verifier::external_body]
pub(crate) fn is_utf8(bytes: &[u8]) -> (r: bool)
    ensures
        r == vstd::utf8::valid_utf8(bytes@),
{
    std::str::from_utf8(bytes).is_ok()
}

} // verus!
