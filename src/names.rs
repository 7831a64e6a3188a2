//! Heuristics over device type labels and human-readable device names: the
//! only place the protocol tells which devices are tools, pads and tablets,
//! which tablet a tool or pad belongs to, and a tool's hardware serial.
use vstd::prelude::*;
use vstd::string::StringSliceAdditionalSpecFns;
use crate::bytes::{
    bytes_eq, concat, find_from, index_from, last_index_of, rfind, strip_prefix,
    strip_prefix_spec, strip_suffix, strip_suffix_spec, trim_end_len, trim_end_spec,
};
use crate::hex::{parse_hex, parse_hex_spec};

verus! {

/// The bytes of a text literal.
pub open spec fn lit(s: &str) -> Seq<u8> {
    s.spec_bytes()
}

pub const OPEN_PAREN: u8 = 0x28;

pub const CLOSE_PAREN: u8 = 0x29;

pub const COLON: u8 = 0x3A;

#[derive(Clone, Copy, Debug, PartialEq, Eq, Structural)]
pub enum ToolType {
    Pen,
    Eraser,
}

/// What a device is to this library.
#[derive(Clone, Copy, Debug, PartialEq, Eq, Structural)]
pub enum DeviceType {
    Tool(ToolType),
    Tablet,
    Pad,
}

/// A device type label, resolved.
#[derive(Clone, Copy, Debug, PartialEq, Eq, Structural)]
pub enum DeviceTypeOrXwayland {
    Type(DeviceType),
    /// The generic xwayland pointer: the device name tells the role.
    Xwayland,
}

/// The valuator labels this library reads.
#[derive(Clone, Copy, Debug, PartialEq, Eq, Structural)]
pub enum ValuatorAxis {
    AbsPressure,
    AbsTiltX,
    AbsTiltY,
    AbsWheel,
}

/// The capability an axis provides.
#[derive(Clone, Copy, Debug, PartialEq, Eq, Structural)]
pub enum Axis {
    Pressure,
    Tilt,
    Wheel,
}

pub open spec fn device_type_spec(label: Seq<u8>) -> Option<DeviceTypeOrXwayland> {
    if label == lit("STYLUS") {
        Some(DeviceTypeOrXwayland::Type(DeviceType::Tool(ToolType::Pen)))
    } else if label == lit("ERASER") {
        Some(DeviceTypeOrXwayland::Type(DeviceType::Tool(ToolType::Eraser)))
    } else if label == lit("PAD") || label == lit("TOUCHPAD") {
        Some(DeviceTypeOrXwayland::Type(DeviceType::Pad))
    } else if label == lit("TABLET") {
        Some(DeviceTypeOrXwayland::Type(DeviceType::Tablet))
    } else if label == lit("xwayland-pointer") {
        Some(DeviceTypeOrXwayland::Xwayland)
    } else {
        None
    }
}

pub open spec fn valuator_axis_spec(label: Seq<u8>) -> Option<ValuatorAxis> {
    if label == lit("Abs Pressure") {
        Some(ValuatorAxis::AbsPressure)
    } else if label == lit("Abs Tilt X") {
        Some(ValuatorAxis::AbsTiltX)
    } else if label == lit("Abs Tilt Y") {
        Some(ValuatorAxis::AbsTiltY)
    } else if label == lit("Abs Wheel") {
        Some(ValuatorAxis::AbsWheel)
    } else {
        None
    }
}

/// The role that an xwayland device name `xwayland-tablet<class>:<n>` gives.
pub open spec fn xwayland_type_spec(name: Seq<u8>) -> Option<DeviceType> {
    match strip_prefix_spec(name, lit("xwayland-tablet")) {
        None => None,
        Some(rest) => match last_index_of(rest, COLON) {
            None => None,
            Some(colon) => {
                let class = rest.subrange(0, colon);
                if class == lit("-pad") {
                    Some(DeviceType::Pad)
                } else if class == lit(" stylus") {
                    Some(DeviceType::Tool(ToolType::Pen))
                } else if class == lit(" eraser") {
                    Some(DeviceType::Tool(ToolType::Eraser))
                } else {
                    None
                }
            },
        },
    }
}

impl DeviceTypeOrXwayland {
    /// Resolves a device type label; `None` for a label of no interest.
    pub fn from_label(label: &[u8]) -> (r: Option<DeviceTypeOrXwayland>)
        ensures
            r == device_type_spec(label@),
    {
        if bytes_eq(label, "STYLUS".as_bytes()) {
            Some(DeviceTypeOrXwayland::Type(DeviceType::Tool(ToolType::Pen)))
        } else if bytes_eq(label, "ERASER".as_bytes()) {
            Some(DeviceTypeOrXwayland::Type(DeviceType::Tool(ToolType::Eraser)))
        } else if bytes_eq(label, "PAD".as_bytes()) || bytes_eq(label, "TOUCHPAD".as_bytes()) {
            Some(DeviceTypeOrXwayland::Type(DeviceType::Pad))
        } else if bytes_eq(label, "TABLET".as_bytes()) {
            Some(DeviceTypeOrXwayland::Type(DeviceType::Tablet))
        } else if bytes_eq(label, "xwayland-pointer".as_bytes()) {
            Some(DeviceTypeOrXwayland::Xwayland)
        } else {
            None
        }
    }
}

impl ValuatorAxis {
    /// Resolves a valuator label; `None` for an axis this library does not read.
    pub fn from_label(label: &[u8]) -> (r: Option<ValuatorAxis>)
        ensures
            r == valuator_axis_spec(label@),
    {
        if bytes_eq(label, "Abs Pressure".as_bytes()) {
            Some(ValuatorAxis::AbsPressure)
        } else if bytes_eq(label, "Abs Tilt X".as_bytes()) {
            Some(ValuatorAxis::AbsTiltX)
        } else if bytes_eq(label, "Abs Tilt Y".as_bytes()) {
            Some(ValuatorAxis::AbsTiltY)
        } else if bytes_eq(label, "Abs Wheel".as_bytes()) {
            Some(ValuatorAxis::AbsWheel)
        } else {
            None
        }
    }

    /// The capability the axis provides; both tilt axes give tilt.
    pub fn axis(self) -> (r: Axis)
        ensures
            r == match self {
                ValuatorAxis::AbsPressure => Axis::Pressure,
                ValuatorAxis::AbsTiltX | ValuatorAxis::AbsTiltY => Axis::Tilt,
                ValuatorAxis::AbsWheel => Axis::Wheel,
            },
    {
        match self {
            ValuatorAxis::AbsPressure => Axis::Pressure,
            ValuatorAxis::AbsTiltX | ValuatorAxis::AbsTiltY => Axis::Tilt,
            ValuatorAxis::AbsWheel => Axis::Wheel,
        }
    }
}

/// Reads the role from the name of a device whose type label is the generic
/// xwayland pointer.
pub fn xwayland_type_from_name(device_name: &[u8]) -> (r: Option<DeviceType>)
    ensures
        r == xwayland_type_spec(device_name@),
{
    let rest = match strip_prefix(device_name, "xwayland-tablet".as_bytes()) {
        Some(rest) => rest,
        None => return None,
    };
    let colon = match rfind(rest.as_slice(), COLON) {
        Some(colon) => colon,
        None => return None,
    };
    let class = crate::bytes::copy_range(rest.as_slice(), 0, colon);
    if bytes_eq(class.as_slice(), "-pad".as_bytes()) {
        Some(DeviceType::Pad)
    } else if bytes_eq(class.as_slice(), " stylus".as_bytes()) {
        Some(DeviceType::Tool(ToolType::Pen))
    } else if bytes_eq(class.as_slice(), " eraser".as_bytes()) {
        Some(DeviceType::Tool(ToolType::Eraser))
    } else {
        None
    }
}

/// The serial written between the parentheses: a literal `0`, or hex after `0x`.
pub open spec fn id_text_spec(text: Seq<u8>) -> Option<u64> {
    if text == lit("0") {
        Some(0)
    } else {
        match strip_prefix_spec(text, lit("0x")) {
            Some(digits) => parse_hex_spec(digits),
            None => None,
        }
    }
}

/// The name text before the last parenthesised group, with trailing
/// whitespace removed, and the serial that group holds.
pub open spec fn split_id_spec(name: Seq<u8>) -> Option<(Seq<u8>, u64)> {
    match last_index_of(name, OPEN_PAREN) {
        None => None,
        Some(open) => match index_from(name, open + 1, CLOSE_PAREN) {
            None => None,
            Some(close) => match id_text_spec(name.subrange(open + 1, close)) {
                None => None,
                Some(id) => Some((trim_end_spec(name.subrange(0, open)), id)),
            },
        },
    }
}

/// The tablet a tool named `human` belongs to: the name without a trailing
/// ` Pen` or ` Eraser`.
pub open spec fn tool_tablet_spec(human: Seq<u8>) -> Option<Seq<u8>> {
    match strip_suffix_spec(human, lit(" Pen")) {
        Some(tablet) => Some(tablet),
        None => strip_suffix_spec(human, lit(" Eraser")),
    }
}

pub struct ToolNameView {
    pub human_readable: Seq<u8>,
    pub maybe_associated_tablet: Option<Seq<u8>>,
    pub id: Option<u64>,
}

pub open spec fn tool_name_spec(name: Seq<u8>) -> ToolNameView {
    let text = match split_id_spec(name) {
        Some(split) => split.0,
        None => name,
    };
    let tablet = tool_tablet_spec(text);
    ToolNameView {
        human_readable: match tablet {
            Some(t) => t,
            None => text,
        },
        maybe_associated_tablet: tablet,
        id: match split_id_spec(name) {
            Some(split) => Some(split.1),
            None => None,
        },
    }
}

pub open spec fn opt_bytes_view(o: Option<Vec<u8>>) -> Option<Seq<u8>> {
    match o {
        Some(v) => Some(v@),
        None => None,
    }
}

/// The fields read from a tool's device name.
pub struct ToolName {
    /// The name without the serial and without a trailing ` Pen` or ` Eraser`.
    pub human_readable: Vec<u8>,
    /// The name of the tablet expected to own the tool.
    pub maybe_associated_tablet: Option<Vec<u8>>,
    /// The hardware serial of the tool.
    pub id: Option<u64>,
}

impl View for ToolName {
    type V = ToolNameView;

    open spec fn view(&self) -> ToolNameView {
        ToolNameView {
            human_readable: self.human_readable@,
            maybe_associated_tablet: opt_bytes_view(self.maybe_associated_tablet),
            id: self.id,
        }
    }
}

impl ToolName {
    pub fn human_readable(&self) -> (r: &[u8])
        ensures
            r@ == self@.human_readable,
    {
        self.human_readable.as_slice()
    }

    pub fn id(&self) -> (r: Option<u64>)
        ensures
            r == self@.id,
    {
        self.id
    }

    pub fn maybe_associated_tablet(&self) -> (r: Option<&[u8]>)
        ensures
            r matches Some(t) ==> self@.maybe_associated_tablet == Some(t@),
            r is None <==> self@.maybe_associated_tablet is None,
    {
        match &self.maybe_associated_tablet {
            Some(t) => Some(t.as_slice()),
            None => None,
        }
    }
}

fn id_text_value(text: &[u8]) -> (r: Option<u64>)
    ensures
        r == id_text_spec(text@),
{
    if bytes_eq(text, "0".as_bytes()) {
        Some(0)
    } else {
        match strip_prefix(text, "0x".as_bytes()) {
            Some(digits) => parse_hex(digits.as_slice()),
            None => None,
        }
    }
}

fn split_id(name: &[u8]) -> (r: Option<(Vec<u8>, u64)>)
    ensures
        r matches Some(p) ==> split_id_spec(name@) == Some((p.0@, p.1)),
        r is None <==> split_id_spec(name@) is None,
{
    let n = name.len();
    let open = match rfind(name, OPEN_PAREN) {
        Some(open) => open,
        None => return None,
    };
    assert(open < n);
    let close = match find_from(name, open + 1, CLOSE_PAREN) {
        Some(close) => close,
        None => return None,
    };
    let id_text = crate::bytes::copy_range(name, open + 1, close);
    let id = match id_text_value(id_text.as_slice()) {
        Some(id) => id,
        None => return None,
    };
    let head = crate::bytes::copy_range(name, 0, open);
    let len = trim_end_len(head.as_slice());
    Some((crate::bytes::copy_range(head.as_slice(), 0, len), id))
}

fn tool_tablet(human: &[u8]) -> (r: Option<Vec<u8>>)
    ensures
        opt_bytes_view(r) == tool_tablet_spec(human@),
{
    match strip_suffix(human, " Pen".as_bytes()) {
        Some(tablet) => Some(tablet),
        None => strip_suffix(human, " Eraser".as_bytes()),
    }
}

/// Reads the human-readable name, the hardware serial and the owning tablet's
/// expected name from a tool's device name, `<tablet> Pen (0x1234)` and the
/// like. The serial is the last parenthesised group, `0` or hex after `0x`;
/// when it does not parse, the whole name is the text. The text without a
/// trailing ` Pen` or ` Eraser` names the tablet and is the readable name.
pub fn parse_tool_name(name: &[u8]) -> (r: ToolName)
    ensures
        r@ == tool_name_spec(name@),
{
    let (text, id) = match split_id(name) {
        Some((text, id)) => (text, Some(id)),
        None => (crate::bytes::copy_range(name, 0, name.len()), None),
    };
    proof {
        assert(name@.subrange(0, name@.len() as int) =~= name@);
    }
    let tablet = tool_tablet(text.as_slice());
    let human = match &tablet {
        Some(t) => {
            let copy = crate::bytes::copy_range(t.as_slice(), 0, t.len());
            proof {
                assert(t@.subrange(0, t@.len() as int) =~= t@);
            }
            copy
        },
        None => text,
    };
    ToolName { human_readable: human, maybe_associated_tablet: tablet, id }
}

/// The expected name of the tablet that owns a pad: `<tablet> Pad` names the
/// tablet whose pen is `<tablet> Pen`.
pub open spec fn pad_tablet_spec(name: Seq<u8>) -> Option<Seq<u8>> {
    match strip_suffix_spec(name, lit(" Pad")) {
        Some(prefix) => Some(prefix + lit(" Pen")),
        None => None,
    }
}

pub fn pad_maybe_associated_tablet(name: &[u8]) -> (r: Option<Vec<u8>>)
    requires
        name@.len() < usize::MAX - 4,
    ensures
        opt_bytes_view(r) == pad_tablet_spec(name@),
{
    match strip_suffix(name, " Pad".as_bytes()) {
        Some(prefix) => {
            let pen = " Pen".as_bytes();
            proof {
                reveal_strlit(" Pen");
                assert(vstd::string::is_ascii(" Pen"));
                assert(pen@.len() == 4);
            }
            Some(concat(prefix.as_slice(), pen))
        },
        None => None,
    }
}

} // verus!
