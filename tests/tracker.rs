use xinput_tablet::events::{Event, PadEvent, RingEvent, ToolEvent};
use xinput_tablet::fixed::{Fixed, Transform};
use xinput_tablet::id::DeviceId;
use xinput_tablet::tracker::{AxisInfo, Phase, RingInfo, ToolInfo};

fn tool_id() -> DeviceId {
    DeviceId::Device { generation: 0, device_id: 11 }
}

fn tablet_id() -> DeviceId {
    DeviceId::Device { generation: 0, device_id: 10 }
}

fn info(phase: Phase) -> ToolInfo {
    ToolInfo {
        pressure: None,
        tilt_x: None,
        tilt_y: None,
        tablet: tablet_id(),
        phase,
        master_pointer: 2,
        master_keyboard: 3,
        grabbed: false,
        frame_pending: None,
        last_interaction: None,
    }
}

fn tool(event: ToolEvent) -> Event {
    Event::Tool { tool: tool_id(), event }
}

fn transition(from: Phase, to: Phase) -> (Phase, Vec<Event>) {
    let mut t = info(from);
    let mut events = Vec::new();
    t.set_phase(tool_id(), to, &mut events);
    (t.phase, events)
}

#[test]
fn phase_table() {
    let enter = tool(ToolEvent::In { tablet: tablet_id() });
    let down = tool(ToolEvent::Down);
    let up = tool(ToolEvent::Up);
    let out = tool(ToolEvent::Out);
    assert_eq!(transition(Phase::Out, Phase::In), (Phase::In, vec![enter]));
    assert_eq!(transition(Phase::Out, Phase::Down), (Phase::Down, vec![enter, down]));
    assert_eq!(transition(Phase::In, Phase::Down), (Phase::Down, vec![down]));
    assert_eq!(transition(Phase::In, Phase::Out), (Phase::Out, vec![out]));
    assert_eq!(transition(Phase::Down, Phase::In), (Phase::In, vec![up]));
    assert_eq!(transition(Phase::Down, Phase::Out), (Phase::Out, vec![up, out]));
}

#[test]
fn same_phase_is_silent() {
    for p in [Phase::Out, Phase::In, Phase::Down] {
        assert_eq!(transition(p, p), (p, vec![]));
    }
}

#[test]
fn request_sequence_stays_consistent() {
    let mut t = info(Phase::Out);
    let mut events = Vec::new();
    for p in [Phase::Down, Phase::Down, Phase::Out, Phase::In, Phase::Down, Phase::In] {
        t.set_phase(tool_id(), p, &mut events);
    }
    let enter = tool(ToolEvent::In { tablet: tablet_id() });
    let down = tool(ToolEvent::Down);
    let up = tool(ToolEvent::Up);
    let out = tool(ToolEvent::Out);
    assert_eq!(events, vec![enter, down, up, out, enter, down, up]);
    assert_eq!(t.phase, Phase::In);
}

#[test]
fn ensure_in_only_from_out() {
    let mut t = info(Phase::Out);
    let mut events = Vec::new();
    t.ensure_in(tool_id(), &mut events);
    assert_eq!(events, vec![tool(ToolEvent::In { tablet: tablet_id() })]);
    t.set_phase(tool_id(), Phase::Down, &mut events);
    t.ensure_in(tool_id(), &mut events);
    assert_eq!(events.len(), 2);
    assert_eq!(t.phase, Phase::Down);
}

#[test]
fn tool_timeout_at_500ms() {
    let mut t = info(Phase::In);
    t.last_interaction = Some(1000);
    let mut events = Vec::new();
    t.expire(tool_id(), 1499, &mut events);
    assert!(events.is_empty());
    assert_eq!(t.last_interaction, Some(1000));
    t.expire(tool_id(), 1500, &mut events);
    assert_eq!(events, vec![tool(ToolEvent::Out)]);
    assert_eq!(t.last_interaction, None);
    t.expire(tool_id(), 9000, &mut events);
    assert_eq!(events.len(), 1);
}

#[test]
fn tool_timeout_in_future_is_ignored() {
    let mut t = info(Phase::Down);
    t.last_interaction = Some(5000);
    assert!(!t.take_timeout(100));
    assert_eq!(t.last_interaction, Some(5000));
}

#[test]
fn down_tool_times_out_with_up_then_out() {
    let mut t = info(Phase::Down);
    t.last_interaction = Some(0);
    let mut events = Vec::new();
    t.expire(tool_id(), 500, &mut events);
    assert_eq!(events, vec![tool(ToolEvent::Up), tool(ToolEvent::Out)]);
}

#[test]
fn ring_timeout_at_200ms() {
    let axis = AxisInfo {
        index: 5,
        transform: Transform::turn(Fixed { integral: 0, frac: 0 }, Fixed { integral: 71, frac: 0 }).unwrap(),
    };
    let mut ring = RingInfo { axis, last_interaction: Some(300) };
    let pad = DeviceId::Device { generation: 0, device_id: 12 };
    let mut events = Vec::new();
    ring.expire(pad, 499, &mut events);
    assert!(events.is_empty());
    ring.expire(pad, 500, &mut events);
    assert_eq!(events, vec![Event::Pad { pad, event: PadEvent::Ring(RingEvent::Up) }]);
    assert_eq!(ring.last_interaction, None);
}

#[test]
fn frame_flush_only_on_new_time() {
    let mut t = info(Phase::In);
    let mut events = Vec::new();
    t.flush_frame(tool_id(), 10, &mut events);
    t.flush_frame(tool_id(), 10, &mut events);
    assert!(events.is_empty());
    t.flush_frame(tool_id(), 11, &mut events);
    assert_eq!(events, vec![tool(ToolEvent::Frame(Some(10)))]);
    assert_eq!(t.frame_pending, Some(11));
}

#[test]
fn zero_device_id_has_no_identity() {
    assert_eq!(DeviceId::make(0, 3), None);
    assert_eq!(DeviceId::make(7, 3), Some(DeviceId::Device { generation: 3, device_id: 7 }));
    assert_ne!(DeviceId::make(7, 3), DeviceId::make(7, 4));
}
