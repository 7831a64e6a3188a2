use xinput_tablet::hex::parse_hex;
use xinput_tablet::names::{
    pad_maybe_associated_tablet, parse_tool_name, xwayland_type_from_name, Axis, DeviceType,
    DeviceTypeOrXwayland, ToolType, ValuatorAxis,
};

#[test]
fn tool_name_with_hex_serial() {
    let parsed = parse_tool_name("Intuos Pro S Pen (0x123abc)".as_bytes());
    assert_eq!(parsed.human_readable(), "Intuos Pro S".as_bytes());
    assert_eq!(parsed.id(), Some(0x123abc));
    assert_eq!(parsed.maybe_associated_tablet(), Some("Intuos Pro S".as_bytes()));
}

#[test]
fn tool_name_with_zero_serial() {
    let parsed = parse_tool_name("Some Device (0)".as_bytes());
    assert_eq!(parsed.id(), Some(0));
    assert_eq!(parsed.human_readable(), "Some Device".as_bytes());
    assert_eq!(parsed.maybe_associated_tablet(), None);
}

#[test]
fn tool_name_eraser_suffix() {
    let parsed = parse_tool_name("Deco 01 Eraser (0xFF)".as_bytes());
    assert_eq!(parsed.id(), Some(255));
    assert_eq!(parsed.maybe_associated_tablet(), Some("Deco 01".as_bytes()));
    assert_eq!(parsed.human_readable(), "Deco 01".as_bytes());
}

#[test]
fn tool_name_without_serial() {
    let parsed = parse_tool_name("Plain Stylus".as_bytes());
    assert_eq!(parsed.id(), None);
    assert_eq!(parsed.human_readable(), "Plain Stylus".as_bytes());
    assert_eq!(parsed.maybe_associated_tablet(), None);
}

#[test]
fn tool_name_bad_serial_keeps_whole_name() {
    let parsed = parse_tool_name("Odd Pen (12)".as_bytes());
    assert_eq!(parsed.id(), None);
    assert_eq!(parsed.maybe_associated_tablet(), None);
    assert_eq!(parsed.human_readable(), "Odd Pen (12)".as_bytes());
}

#[test]
fn tool_name_unclosed_paren() {
    let parsed = parse_tool_name("Broken Pen (0x12".as_bytes());
    assert_eq!(parsed.id(), None);
    assert_eq!(parsed.human_readable(), "Broken Pen (0x12".as_bytes());
}

#[test]
fn tool_name_last_group_counts() {
    let parsed = parse_tool_name("Tab (x) Pen  (0x10)".as_bytes());
    assert_eq!(parsed.id(), Some(16));
    assert_eq!(parsed.maybe_associated_tablet(), Some("Tab (x)".as_bytes()));
}

#[test]
fn pad_name_names_pen_of_tablet() {
    let expected = pad_maybe_associated_tablet("Intuos Pro S Pad".as_bytes());
    assert_eq!(expected, Some("Intuos Pro S Pen".as_bytes().to_vec()));
    assert_eq!(pad_maybe_associated_tablet("Intuos Pro S".as_bytes()), None);
}

#[test]
fn xwayland_names() {
    assert_eq!(xwayland_type_from_name("xwayland-tablet-pad:43".as_bytes()), Some(DeviceType::Pad));
    assert_eq!(
        xwayland_type_from_name("xwayland-tablet stylus:43".as_bytes()),
        Some(DeviceType::Tool(ToolType::Pen))
    );
    assert_eq!(
        xwayland_type_from_name("xwayland-tablet eraser:1".as_bytes()),
        Some(DeviceType::Tool(ToolType::Eraser))
    );
    assert_eq!(xwayland_type_from_name("xwayland-tablet stylus".as_bytes()), None);
    assert_eq!(xwayland_type_from_name("xwayland-pointer:43".as_bytes()), None);
    assert_eq!(xwayland_type_from_name("xwayland-tablet mouse:43".as_bytes()), None);
}

#[test]
fn device_type_labels() {
    assert_eq!(
        DeviceTypeOrXwayland::from_label("STYLUS".as_bytes()),
        Some(DeviceTypeOrXwayland::Type(DeviceType::Tool(ToolType::Pen)))
    );
    assert_eq!(
        DeviceTypeOrXwayland::from_label("ERASER".as_bytes()),
        Some(DeviceTypeOrXwayland::Type(DeviceType::Tool(ToolType::Eraser)))
    );
    assert_eq!(DeviceTypeOrXwayland::from_label("PAD".as_bytes()), Some(DeviceTypeOrXwayland::Type(DeviceType::Pad)));
    assert_eq!(
        DeviceTypeOrXwayland::from_label("TOUCHPAD".as_bytes()),
        Some(DeviceTypeOrXwayland::Type(DeviceType::Pad))
    );
    assert_eq!(
        DeviceTypeOrXwayland::from_label("TABLET".as_bytes()),
        Some(DeviceTypeOrXwayland::Type(DeviceType::Tablet))
    );
    assert_eq!(DeviceTypeOrXwayland::from_label("xwayland-pointer".as_bytes()), Some(DeviceTypeOrXwayland::Xwayland));
    assert_eq!(DeviceTypeOrXwayland::from_label("MOUSE".as_bytes()), None);
    assert_eq!(DeviceTypeOrXwayland::from_label("TOUCHSCREEN".as_bytes()), None);
    assert_eq!(DeviceTypeOrXwayland::from_label("stylus".as_bytes()), None);
}

#[test]
fn valuator_labels() {
    assert_eq!(ValuatorAxis::from_label("Abs Pressure".as_bytes()), Some(ValuatorAxis::AbsPressure));
    assert_eq!(ValuatorAxis::from_label("Abs Tilt X".as_bytes()), Some(ValuatorAxis::AbsTiltX));
    assert_eq!(ValuatorAxis::from_label("Abs Tilt Y".as_bytes()), Some(ValuatorAxis::AbsTiltY));
    assert_eq!(ValuatorAxis::from_label("Abs Wheel".as_bytes()), Some(ValuatorAxis::AbsWheel));
    assert_eq!(ValuatorAxis::from_label("Abs X".as_bytes()), None);
    assert_eq!(ValuatorAxis::AbsTiltY.axis(), Axis::Tilt);
    assert_eq!(ValuatorAxis::AbsPressure.axis(), Axis::Pressure);
    assert_eq!(ValuatorAxis::AbsWheel.axis(), Axis::Wheel);
}

#[test]
fn hex_numbers() {
    assert_eq!(parse_hex("1f".as_bytes()), Some(31));
    assert_eq!(parse_hex("FF".as_bytes()), Some(255));
    assert_eq!(parse_hex("+ff".as_bytes()), Some(255));
    assert_eq!(parse_hex("ffffffffffffffff".as_bytes()), Some(u64::MAX));
    assert_eq!(parse_hex("10000000000000000".as_bytes()), None);
    assert_eq!(parse_hex("".as_bytes()), None);
    assert_eq!(parse_hex("+".as_bytes()), None);
    assert_eq!(parse_hex("-1".as_bytes()), None);
    assert_eq!(parse_hex("12g".as_bytes()), None);
}
