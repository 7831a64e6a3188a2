use xinput_tablet::classify::{classify, Interest};
use xinput_tablet::engine::{
    pad_mut_from_device_id, tool_info_mut_from_device_id, valuator_fetch, Action, Engine, InputEvent,
};
use xinput_tablet::events::{Event, PadEvent, RingEvent, ToolEvent};
use xinput_tablet::fixed::{Fixed, Unit, FRAC_ONE};
use xinput_tablet::id::DeviceId;
use xinput_tablet::names::ToolType;
use xinput_tablet::snapshot::{ClassInfo, DeviceUse, ListedDevice, QueriedDevice, ValuatorClass};

const PEN: u16 = 11;
const PAD: u16 = 12;
const TABLET: u16 = 10;
const MASTER_POINTER: u16 = 2;
const MASTER_KEYBOARD: u16 = 3;

fn whole(i: i32) -> Fixed {
    Fixed { integral: i, frac: 0 }
}

fn valuator(number: u16, label: &str, min: i32, max: i32) -> ClassInfo {
    ClassInfo::Valuator(ValuatorClass {
        number,
        absolute: true,
        label: Some(label.as_bytes().to_vec()),
        min: whole(min),
        max: whole(max),
    })
}

fn listed(device_id: u16, label: Option<&str>, name: &str) -> ListedDevice {
    ListedDevice { device_id, type_label: label.map(|l| l.as_bytes().to_vec()), name: name.as_bytes().to_vec() }
}

fn queried(device_id: u16, device_use: DeviceUse, attachment: u16, name: &str, classes: Vec<ClassInfo>) -> QueriedDevice {
    QueriedDevice { device_id, device_use, attachment, name: name.as_bytes().to_vec(), classes }
}

fn snapshot() -> (Vec<ListedDevice>, Vec<QueriedDevice>) {
    let listed = vec![
        listed(MASTER_POINTER, None, "Virtual core pointer"),
        listed(TABLET, Some("TABLET"), "Intuos Pro S"),
        listed(PEN, Some("STYLUS"), "Intuos Pro S Pen (0x123abc)"),
        listed(PAD, Some("PAD"), "Intuos Pro S Pad"),
        listed(13, Some("MOUSE"), "USB Mouse"),
    ];
    let queries = vec![
        queried(MASTER_POINTER, DeviceUse::MasterPointer, MASTER_KEYBOARD, "Virtual core pointer", vec![]),
        queried(MASTER_KEYBOARD, DeviceUse::MasterKeyboard, MASTER_POINTER, "Virtual core keyboard", vec![]),
        queried(TABLET, DeviceUse::SlavePointer, MASTER_POINTER, "Intuos Pro S", vec![]),
        queried(
            PEN,
            DeviceUse::SlavePointer,
            MASTER_POINTER,
            "Intuos Pro S Pen (0x123abc)",
            vec![
                valuator(2, "Abs Pressure", 0, 8191),
                valuator(3, "Abs Tilt X", -64, 63),
                valuator(4, "Abs Tilt Y", -60, 70),
                valuator(6, "Abs Wheel", 5, 5),
            ],
        ),
        queried(
            PAD,
            DeviceUse::SlavePointer,
            MASTER_POINTER,
            "Intuos Pro S Pad",
            vec![ClassInfo::Button { num_buttons: 11 }, valuator(5, "Abs Wheel", 0, 71)],
        ),
        queried(13, DeviceUse::SlavePointer, MASTER_POINTER, "USB Mouse", vec![ClassInfo::Button { num_buttons: 3 }]),
    ];
    (listed, queries)
}

fn engine() -> Engine {
    let (l, q) = snapshot();
    let mut e = Engine::new(&l, &q);
    e.begin_tick();
    e
}

fn id(raw: u16) -> DeviceId {
    DeviceId::Device { generation: 0, device_id: raw }
}

fn pen_motion(time: u32, pressure: i32) -> InputEvent {
    let mut values = vec![whole(0); 5];
    values[2] = whole(pressure);
    values[3] = whole(10);
    InputEvent::Motion { device: PEN, time, x: 5 << 16, y: 7 << 16, mask: vec![0b1_1100], values }
}

fn ring_motion(time: u32, value: Fixed) -> InputEvent {
    InputEvent::Motion { device: PAD, time, x: 0, y: 0, mask: vec![1 << 5], values: vec![value] }
}

#[test]
fn classification_builds_registry() {
    let e = engine();
    assert_eq!(e.tools().len(), 1);
    let pen = &e.tools()[0];
    assert_eq!(pen.id, id(PEN));
    assert_eq!(pen.name, Some("Intuos Pro S".as_bytes().to_vec()));
    assert_eq!(pen.hardware_id, Some(0x123abc));
    assert_eq!(pen.tool_type, ToolType::Pen);
    assert!(pen.pressure);
    let tilt = pen.tilt.unwrap();
    assert_eq!(tilt.min, -64 * FRAC_ONE);
    assert_eq!(tilt.max, 70 * FRAC_ONE);
    assert_eq!(e.registry.tool_infos[0].tablet, id(TABLET));
    assert_eq!(e.registry.tool_infos[0].master_keyboard, MASTER_KEYBOARD);
    assert_eq!(e.pads().len(), 1);
    assert_eq!(e.pads()[0].total_buttons, 11);
    assert!(e.pads()[0].has_ring);
    assert_eq!(e.tablets().len(), 2);
    assert_eq!(e.tablets()[0].id, id(TABLET));
    assert_eq!(e.tablets()[1].id, DeviceId::EmulatedTablet);
    assert_eq!(e.registry.pad_infos[0].tablet, DeviceId::EmulatedTablet);
    assert_eq!(e.timestamp_granularity_ms(), 1);
}

#[test]
fn mouse_is_neither_tool_nor_pad() {
    let (l, q) = snapshot();
    let r = classify(&l, &q, 0);
    assert!(r.tools.iter().all(|t| t.id != id(13)));
    assert!(r.pads.iter().all(|p| p.id != id(13)));
    assert!(r.tablets.iter().all(|t| t.id != id(13)));
}

#[test]
fn interest_lists_tools_pads_then_masters() {
    let (l, q) = snapshot();
    let r = classify(&l, &q, 0);
    assert_eq!(r.interest(), vec![Interest::Tool(PEN), Interest::Pad(PAD), Interest::AllMasters]);
    let empty = classify(&vec![], &vec![], 0);
    assert!(empty.interest().is_empty());
    assert!(empty.tablets.is_empty());
}

#[test]
fn pad_found_through_pen_name() {
    let (mut l, mut q) = snapshot();
    l.push(listed(20, Some("TABLET"), "Intuos Pro S Pen"));
    q.push(queried(20, DeviceUse::SlavePointer, MASTER_POINTER, "Intuos Pro S Pen", vec![]));
    let r = classify(&l, &q, 4);
    assert_eq!(r.pad_infos[0].tablet, DeviceId::Device { generation: 4, device_id: 20 });
    assert!(r.tablets.iter().all(|t| t.id != DeviceId::EmulatedTablet));
}

#[test]
fn floating_pad_and_master_tool_are_skipped() {
    let (l, mut q) = snapshot();
    q[3].device_use = DeviceUse::MasterPointer;
    q[4].device_use = DeviceUse::FloatingSlave;
    let r = classify(&l, &q, 0);
    assert!(r.tools.is_empty());
    assert!(r.pads.is_empty());
    assert_eq!(r.tablets.len(), 1);
}

#[test]
fn new_engine_announces_pads() {
    let (l, q) = snapshot();
    let e = Engine::new(&l, &q);
    assert_eq!(
        e.raw_events(),
        &[Event::Pad { pad: id(PAD), event: PadEvent::Enter { tablet: DeviceId::EmulatedTablet } }][..]
    );
}

#[test]
fn motion_emits_in_then_pose() {
    let mut e = engine();
    assert!(matches!(e.handle(&pen_motion(1000, 8191)), Action::Nothing));
    let events = e.raw_events();
    assert_eq!(events.len(), 2);
    assert_eq!(events[0], Event::Tool { tool: id(PEN), event: ToolEvent::In { tablet: id(TABLET) } });
    match events[1] {
        Event::Tool { tool, event: ToolEvent::Pose(pose) } => {
            assert_eq!(tool, id(PEN));
            assert_eq!((pose.x, pose.y), (5 << 16, 7 << 16));
            let p = pose.pressure.unwrap();
            assert_eq!(p.num, p.den);
            assert_eq!(p.unit, Unit::One);
            let tilt = pose.tilt.unwrap();
            assert_eq!(tilt.x.num, 10 * FRAC_ONE);
            assert_eq!(tilt.x.unit, Unit::Degree);
            assert_eq!(tilt.y.num, 0);
        }
        other => panic!("unexpected {:?}", other),
    }
    assert_eq!(e.server_time, 1000);
}

#[test]
fn same_timestamp_coalesces_frames() {
    let mut e = engine();
    e.handle(&pen_motion(1000, 100));
    e.handle(&pen_motion(1000, 200));
    let frames = |e: &Engine| e.raw_events().iter().filter(|ev| matches!(ev, Event::Tool { event: ToolEvent::Frame(_), .. })).count();
    assert_eq!(frames(&e), 0);
    e.handle(&pen_motion(1016, 300));
    assert_eq!(frames(&e), 1);
    assert_eq!(e.raw_events()[3], Event::Tool { tool: id(PEN), event: ToolEvent::Frame(Some(1000)) });
    e.end_tick();
    assert_eq!(frames(&e), 2);
    assert_eq!(*e.raw_events().last().unwrap(), Event::Tool { tool: id(PEN), event: ToolEvent::Frame(Some(1016)) });
}

#[test]
fn tool_proximity_times_out() {
    let mut e = engine();
    e.handle(&pen_motion(1000, 100));
    e.end_tick();
    e.begin_tick();
    e.handle(&InputEvent::Button { device: 99, time: 1499, detail: 1, pressed: true, emulated: false });
    e.end_tick();
    assert!(e.raw_events().is_empty());
    e.begin_tick();
    e.handle(&InputEvent::Button { device: 99, time: 1500, detail: 1, pressed: true, emulated: false });
    e.end_tick();
    assert_eq!(e.raw_events(), &[Event::Tool { tool: id(PEN), event: ToolEvent::Out }][..]);
    e.begin_tick();
    e.handle(&InputEvent::Button { device: 99, time: 3000, detail: 1, pressed: true, emulated: false });
    e.end_tick();
    assert!(e.raw_events().is_empty());
}

#[test]
fn tip_button_drives_phase() {
    let mut e = engine();
    e.handle(&InputEvent::Button { device: PEN, time: 5, detail: 1, pressed: true, emulated: false });
    e.handle(&InputEvent::Button { device: PEN, time: 6, detail: 2, pressed: true, emulated: false });
    e.handle(&InputEvent::Button { device: PEN, time: 7, detail: 1, pressed: false, emulated: false });
    e.handle(&InputEvent::Button { device: PEN, time: 8, detail: 3, pressed: true, emulated: true });
    e.handle(&InputEvent::Button { device: PEN, time: 9, detail: 0x1_0000, pressed: true, emulated: false });
    let t = |event| Event::Tool { tool: id(PEN), event };
    assert_eq!(
        e.raw_events(),
        &[
            t(ToolEvent::In { tablet: id(TABLET) }),
            t(ToolEvent::Down),
            t(ToolEvent::Button { button_id: 2, pressed: true }),
            t(ToolEvent::Up),
        ][..]
    );
    assert_eq!(e.server_time, 9);
}

#[test]
fn pad_buttons_are_rebased_and_checked() {
    let mut e = engine();
    for detail in [0, 1, 11, 12] {
        e.handle(&InputEvent::Button { device: PAD, time: 1, detail, pressed: true, emulated: false });
    }
    let b = |button_idx| Event::Pad { pad: id(PAD), event: PadEvent::Button { button_idx, pressed: true } };
    assert_eq!(e.raw_events(), &[b(0), b(10)][..]);
}

#[test]
fn ring_pose_and_release() {
    let mut e = engine();
    e.handle(&ring_motion(100, whole(18)));
    let ring = |event| Event::Pad { pad: id(PAD), event: PadEvent::Ring(event) };
    match e.raw_events()[0] {
        Event::Pad { event: PadEvent::Ring(RingEvent::Pose(angle)), .. } => {
            assert_eq!(angle.num * 71, angle.den * 18);
            assert_eq!(angle.unit, Unit::Turn);
        }
        other => panic!("unexpected {:?}", other),
    }
    assert_eq!(e.raw_events()[1], ring(RingEvent::Frame(Some(100))));
    e.end_tick();
    assert_eq!(e.raw_events().len(), 2);
    e.begin_tick();
    e.handle(&InputEvent::Button { device: 99, time: 299, detail: 1, pressed: true, emulated: false });
    e.end_tick();
    assert!(e.raw_events().is_empty());
    e.begin_tick();
    e.handle(&InputEvent::Button { device: 99, time: 300, detail: 1, pressed: true, emulated: false });
    e.end_tick();
    assert_eq!(e.raw_events(), &[ring(RingEvent::Up)][..]);
}

#[test]
fn ring_zero_is_dropped() {
    let mut e = engine();
    e.handle(&ring_motion(100, whole(0)));
    assert!(e.raw_events().is_empty());
    e.handle(&ring_motion(110, whole(3)));
    e.handle(&ring_motion(400, whole(0)));
    let ring = |event| Event::Pad { pad: id(PAD), event: PadEvent::Ring(event) };
    assert_eq!(e.raw_events().len(), 3);
    assert_eq!(e.raw_events()[2], ring(RingEvent::Up));
}

#[test]
fn grab_arbitration() {
    let mut e = engine();
    match e.handle(&InputEvent::Enter { device: MASTER_POINTER, time: 50 }) {
        Action::Grab { devices, time } => {
            assert_eq!(devices, vec![PEN, PAD]);
            assert_eq!(time, 50);
        }
        _ => panic!("expected a grab"),
    }
    e.grab_done(PEN, true);
    e.grab_done(PAD, false);
    match e.handle(&InputEvent::Enter { device: MASTER_KEYBOARD, time: 51 }) {
        Action::Grab { devices, .. } => assert_eq!(devices, vec![PAD]),
        _ => panic!("expected a grab"),
    }
    match e.handle(&InputEvent::Enter { device: 40, time: 52 }) {
        Action::Grab { devices, .. } => assert!(devices.is_empty()),
        _ => panic!("expected a grab"),
    }
    e.handle(&pen_motion(60, 100));
    e.handle(&InputEvent::Button { device: PEN, time: 60, detail: 1, pressed: true, emulated: false });
    let before = e.raw_events().len();
    match e.handle(&InputEvent::Leave { device: MASTER_POINTER, time: 70 }) {
        Action::Ungrab { devices, time } => {
            assert_eq!(devices, vec![PEN]);
            assert_eq!(time, 70);
        }
        _ => panic!("expected a release"),
    }
    let t = |event| Event::Tool { tool: id(PEN), event };
    assert_eq!(
        &e.raw_events()[before..],
        &[t(ToolEvent::Frame(Some(60))), t(ToolEvent::Up), t(ToolEvent::Out)][..]
    );
    e.ungrab_done(PEN, false);
    assert!(e.registry.tool_infos[0].grabbed);
    e.ungrab_done(PEN, true);
    assert!(!e.registry.tool_infos[0].grabbed);
}

#[test]
fn hierarchy_asks_for_one_rescan_per_tick() {
    let mut e = engine();
    assert!(matches!(e.handle(&InputEvent::Hierarchy { time: 5 }), Action::Repopulate));
    assert!(matches!(e.handle(&InputEvent::Hierarchy { time: 6 }), Action::Nothing));
    let (l, q) = snapshot();
    e.repopulate(&l, &q);
    assert_eq!(e.generation, 1);
    assert_eq!(e.tools()[0].id, DeviceId::Device { generation: 1, device_id: PEN });
    e.handle(&pen_motion(10, 1));
    assert_eq!(e.server_time, 10);
    e.begin_tick();
    assert!(matches!(e.handle(&InputEvent::Hierarchy { time: 7 }), Action::Repopulate));
    assert!(matches!(e.handle(&InputEvent::Other), Action::Nothing));
}

#[test]
fn stale_and_zero_ids_do_not_resolve() {
    let e = engine();
    assert_eq!(tool_info_mut_from_device_id(PEN, &e.registry.tools, 0), Some((id(PEN), 0)));
    assert_eq!(tool_info_mut_from_device_id(PEN, &e.registry.tools, 1), None);
    assert_eq!(tool_info_mut_from_device_id(0, &e.registry.tools, 0), None);
    assert_eq!(pad_mut_from_device_id(PAD, &e.registry.pads, 0), Some((id(PAD), 0)));
    assert_eq!(pad_mut_from_device_id(PEN, &e.registry.pads, 0), None);
}

#[test]
fn valuator_mask_and_single_value_quirk() {
    let values = vec![whole(1), whole(2), whole(3)];
    assert_eq!(valuator_fetch(&vec![0b110], &values, 1), Some(whole(2)));
    assert_eq!(valuator_fetch(&vec![0b110], &values, 0), None);
    assert_eq!(valuator_fetch(&vec![0b110], &values, 40), None);
    assert_eq!(valuator_fetch(&vec![1 << 5], &vec![whole(9)], 5), Some(whole(9)));
    assert_eq!(valuator_fetch(&vec![0, 1], &values, 32), None);
    assert_eq!(valuator_fetch(&vec![0, 1], &vec![whole(4)], 32), Some(whole(4)));
}

#[test]
fn tablet_usb_id_recorded() {
    let mut e = engine();
    e.set_tablet_usb_id(0, Some(xinput_tablet::snapshot::UsbId { vid: 1, pid: 2 }));
    assert_eq!(e.tablets()[0].usb_id, Some(xinput_tablet::snapshot::UsbId { vid: 1, pid: 2 }));
    assert_eq!(e.tablets()[0].name, Some("Intuos Pro S".as_bytes().to_vec()));
}

#[test]
fn non_utf8_names_are_ignored() {
    let (mut l, mut q) = snapshot();
    let mut bad = "Intuos Pro S Pen (0x1)".as_bytes().to_vec();
    bad.push(0xff);
    l[2].name = bad.clone();
    q[3].name = bad;
    l[1].name = vec![0xc0, 0x80];
    let r = classify(&l, &q, 0);
    assert_eq!(r.tools.len(), 1);
    assert_eq!(r.tools[0].name, None);
    assert_eq!(r.tools[0].hardware_id, None);
    assert_eq!(r.tool_infos[0].tablet, DeviceId::EmulatedTablet);
    assert_eq!(r.tablets[0].name, None);
}

#[test]
fn repeated_device_id_is_given_out_once() {
    let (mut l, q) = snapshot();
    l.push(listed(PEN, Some("STYLUS"), "Intuos Pro S Pen (0x999)"));
    l.push(listed(PAD, Some("PAD"), "Intuos Pro S Pad"));
    let r = classify(&l, &q, 0);
    assert_eq!(r.tools.len(), 1);
    assert_eq!(r.tools[0].hardware_id, Some(0x123abc));
    assert_eq!(r.pads.len(), 1);
    assert_eq!(r.tool_infos.len(), 1);
    assert_eq!(r.pad_infos.len(), 1);
}

#[test]
fn emulated_tablet_has_stable_name() {
    let e = engine();
    let emulated = e.tablets().iter().find(|t| t.id == DeviceId::EmulatedTablet).unwrap();
    assert_eq!(emulated.name, Some("octotablet emulated".as_bytes().to_vec()));
    assert_eq!(emulated.usb_id, None);
    assert_eq!(e.tablets().iter().filter(|t| t.id == DeviceId::EmulatedTablet).count(), 1);
}
