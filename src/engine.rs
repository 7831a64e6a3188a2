//! The per-tick event pump, as a state machine: the caller hands in each
//! protocol event as a plain value, carries out the grabs and re-enumeration
//! that the engine asks for, and reads the batch of events of the tick.
use vstd::prelude::*;
use crate::classify::{classify, raw_id, Pad, Registry, RegistryView, Tablet, TabletView, Tool, ToolView};
use crate::events::{Event, PadEvent, Pose, RingEvent, Tilt, ToolEvent};
use crate::fixed::{apply_spec, Fixed, Scaled, Unit, FRAC_ONE};
use crate::id::DeviceId;
use crate::snapshot::{ListedDevice, QueriedDevice, UsbId};
use crate::tracker::{
    frame_flush_events, phase_events, ring_event, ring_timeout_events, timed_out, tool_event,
    tool_timeout_events, AxisInfo, PadInfo, Phase, RingInfo, ToolInfo, RING_TIMEOUT_MS,
    TOOL_TIMEOUT_MS,
};

verus! {

/// A protocol event, reduced to what the engine reads.
pub enum InputEvent {
    /// Devices were added, removed or reassigned.
    Hierarchy { time: u32 },
    /// A master pointer entered the window, or a master keyboard got focus.
    Enter { device: u16, time: u32 },
    /// A master pointer left the window, or a master keyboard lost focus.
    Leave { device: u16, time: u32 },
    /// A button went down or up.
    Button { device: u16, time: u32, detail: u32, pressed: bool, emulated: bool },
    /// Valuators changed. `mask` flags the valuators that reported, and
    /// `values` holds their samples; `x` and `y` are 16.16 fixed point.
    Motion { device: u16, time: u32, x: i32, y: i32, mask: Vec<u32>, values: Vec<Fixed> },
    /// Anything else.
    Other,
}

/// What the caller must do after handing in an event.
pub enum Action {
    Nothing,
    /// Enumerate the devices again and pass them to `Engine::repopulate`.
    Repopulate,
    /// Grab each device, reporting each outcome to `Engine::grab_done`.
    Grab { devices: Vec<u16>, time: u32 },
    /// Release each device, reporting each outcome to `Engine::ungrab_done`.
    Ungrab { devices: Vec<u16>, time: u32 },
}

/// The device registry, its trackers and the events of the current tick.
pub struct Engine {
    pub registry: Registry,
    pub events: Vec<Event>,
    /// Timestamp of the latest event seen.
    pub server_time: u32,
    /// Epoch of the registry's ids.
    pub generation: u16,
    /// Whether the devices were enumerated again during this tick.
    pub repopulated: bool,
}

pub struct EngineView {
    pub registry: RegistryView,
    pub events: Seq<Event>,
    pub server_time: u32,
    pub generation: u16,
    pub repopulated: bool,
}

impl View for Engine {
    type V = EngineView;

    open spec fn view(&self) -> EngineView {
        EngineView {
            registry: self.registry@,
            events: self.events@,
            server_time: self.server_time,
            generation: self.generation,
            repopulated: self.repopulated,
        }
    }
}

/// The id that raw device `raw` has in epoch `generation`.
pub open spec fn lookup_id(raw: u16, generation: u16) -> Option<DeviceId> {
    if raw == 0 {
        None
    } else {
        Some(DeviceId::Device { generation, device_id: raw })
    }
}

/// Index of the first tool at or after `start` with id `id`.
pub open spec fn tool_position(tools: Seq<ToolView>, id: DeviceId, start: int) -> Option<int>
    decreases tools.len() - start,
{
    if start < 0 || start >= tools.len() {
        None
    } else if tools[start].id == id {
        Some(start)
    } else {
        tool_position(tools, id, start + 1)
    }
}

/// Index of the first pad at or after `start` with id `id`.
pub open spec fn pad_position(pads: Seq<Pad>, id: DeviceId, start: int) -> Option<int>
    decreases pads.len() - start,
{
    if start < 0 || start >= pads.len() {
        None
    } else if pads[start].id == id {
        Some(start)
    } else {
        pad_position(pads, id, start + 1)
    }
}

pub open spec fn found(r: Option<(DeviceId, usize)>, expected: Option<(DeviceId, int)>) -> bool {
    &&& r is None <==> expected is None
    &&& r matches Some((id, i)) ==> expected == Some((id, i as int))
}

pub open spec fn tool_lookup(tools: Seq<ToolView>, raw: u16, generation: u16) -> Option<(DeviceId, int)> {
    match lookup_id(raw, generation) {
        Some(id) => match tool_position(tools, id, 0) {
            Some(i) => Some((id, i)),
            None => None,
        },
        None => None,
    }
}

pub open spec fn pad_lookup(pads: Seq<Pad>, raw: u16, generation: u16) -> Option<(DeviceId, int)> {
    match lookup_id(raw, generation) {
        Some(id) => match pad_position(pads, id, 0) {
            Some(i) => Some((id, i)),
            None => None,
        },
        None => None,
    }
}

/// Finds the tool with raw id `id` in the current epoch: its id and index.
pub fn tool_info_mut_from_device_id(id: u16, tools: &Vec<Tool>, now_generation: u16) -> (r: Option<(DeviceId, usize)>)
    ensures
        found(r, tool_lookup(tools@.map_values(|t: Tool| t@), id, now_generation)),
        r matches Some((_, i)) ==> i < tools@.len(),
{
    let target = match DeviceId::make(id, now_generation) {
        Some(t) => t,
        None => return None,
    };
    let ghost views = tools@.map_values(|t: Tool| t@);
    let mut i: usize = 0;
    while i < tools.len()
        invariant
            i <= tools@.len(),
            id != 0,
            target == (DeviceId::Device { generation: now_generation, device_id: id }),
            views == tools@.map_values(|t: Tool| t@),
            tool_position(views, target, 0) == tool_position(views, target, i as int),
        decreases tools@.len() - i,
    {
        if tools[i].id == target {
            proof {
                assert(views[i as int].id == target);
                assert(tool_position(views, target, i as int) == Some(i as int));
            }
            return Some((target, i));
        }
        i = i + 1;
    }
    None
}

/// Finds the pad with raw id `id` in the current epoch: its id and index.
pub fn pad_mut_from_device_id(id: u16, pads: &[Pad], now_generation: u16) -> (r: Option<(DeviceId, usize)>)
    ensures
        found(r, pad_lookup(pads@, id, now_generation)),
        r matches Some((_, i)) ==> i < pads@.len(),
{
    let target = match DeviceId::make(id, now_generation) {
        Some(t) => t,
        None => return None,
    };
    let mut i: usize = 0;
    while i < pads.len()
        invariant
            i <= pads@.len(),
            id != 0,
            target == (DeviceId::Device { generation: now_generation, device_id: id }),
            pad_position(pads@, target, 0) == pad_position(pads@, target, i as int),
        decreases pads@.len() - i,
    {
        if pads[i].id == target {
            proof {
                assert(pad_position(pads@, target, i as int) == Some(i as int));
            }
            return Some((target, i));
        }
        i = i + 1;
    }
    None
}

/// The sample of valuator `idx` in a motion event, if it reported. A payload
/// of a single sample holds that sample whatever slot the mask flags.
pub open spec fn valuator_spec(mask: Seq<u32>, values: Seq<Fixed>, idx: u16) -> Option<Fixed> {
    let word = idx / 32;
    let bit = idx % 32;
    if word >= mask.len() {
        None
    } else if mask[word as int] & (1u32 << (bit as u32)) == 0 {
        None
    } else if values.len() == 1 {
        Some(values[0])
    } else if idx < values.len() {
        Some(values[idx as int])
    } else {
        None
    }
}

pub fn valuator_fetch(mask: &Vec<u32>, values: &Vec<Fixed>, idx: u16) -> (r: Option<Fixed>)
    ensures
        r == valuator_spec(mask@, values@, idx),
{
    let word = idx / 32;
    let bit = idx % 32;
    if word as usize >= mask.len() {
        return None;
    }
    if mask[word as usize] & (1u32 << (bit as u32)) == 0 {
        return None;
    }
    if values.len() == 1 {
        return Some(values[0]);
    }
    if (idx as usize) < values.len() {
        Some(values[idx as usize])
    } else {
        None
    }
}

/// The transformed sample of an axis, when the axis exists and reported.
pub open spec fn axis_reading(axis: Option<AxisInfo>, mask: Seq<u32>, values: Seq<Fixed>) -> Option<Scaled> {
    match axis {
        Some(a) => match valuator_spec(mask, values, a.index) {
            Some(v) => Some(apply_spec(a.transform, v)),
            None => None,
        },
        None => None,
    }
}

/// No tilt, for a tilt axis that did not report.
pub open spec fn zero_tilt() -> Scaled {
    Scaled { num: 0, den: FRAC_ONE, unit: Unit::Degree }
}

/// The pose a motion event gives a tool.
pub open spec fn pose_spec(info: ToolInfo, x: i32, y: i32, mask: Seq<u32>, values: Seq<Fixed>) -> Pose {
    let tx = axis_reading(info.tilt_x, mask, values);
    let ty = axis_reading(info.tilt_y, mask, values);
    Pose {
        x,
        y,
        pressure: axis_reading(info.pressure, mask, values),
        tilt: match (tx, ty) {
            (Some(a), Some(b)) => Some(Tilt { x: a, y: b }),
            (Some(a), None) => Some(Tilt { x: a, y: zero_tilt() }),
            (None, Some(b)) => Some(Tilt { x: zero_tilt(), y: b }),
            (None, None) => None,
        },
    }
}

/// The phase after "ensure in".
pub open spec fn entered(p: Phase) -> Phase {
    if p == Phase::Out { Phase::In } else { p }
}

/// What "ensure in" emits.
pub open spec fn enter_events(id: DeviceId, info: ToolInfo) -> Seq<Event> {
    if info.phase == Phase::Out {
        phase_events(id, info.tablet, Phase::Out, Phase::In)
    } else {
        Seq::empty()
    }
}

/// A tool's motion: close the frame of an earlier timestamp, ensure the tool
/// is in, emit its pose, and note the interaction.
pub open spec fn tool_motion_step(
    id: DeviceId,
    info: ToolInfo,
    time: u32,
    x: i32,
    y: i32,
    mask: Seq<u32>,
    values: Seq<Fixed>,
) -> (ToolInfo, Seq<Event>) {
    (
        ToolInfo { frame_pending: Some(time), phase: entered(info.phase), last_interaction: Some(time), ..info },
        frame_flush_events(id, info.frame_pending, time) + enter_events(id, info) + seq![
            tool_event(id, ToolEvent::Pose(pose_spec(info, x, y, mask, values))),
        ],
    )
}

/// A ring's motion at `now`: `None` when the ring's valuator did not report.
/// A timed-out interaction is released first; a zero sample, which the
/// hardware sends when the ring is let go, is then dropped; any other sample
/// is emitted as the ring's angle, closed by a frame.
pub open spec fn ring_motion_step(pad: DeviceId, ring: RingInfo, now: u32, mask: Seq<u32>, values: Seq<Fixed>) -> Option<(RingInfo, Seq<Event>)> {
    match valuator_spec(mask, values, ring.axis.index) {
        None => None,
        Some(raw) => {
            let after = RingInfo {
                last_interaction: if timed_out(ring.last_interaction, now, RING_TIMEOUT_MS) {
                    None
                } else {
                    ring.last_interaction
                },
                ..ring
            };
            let released = ring_timeout_events(pad, ring, now);
            if raw == (Fixed { integral: 0, frac: 0 }) {
                Some((after, released))
            } else {
                Some(
                    (
                        RingInfo { last_interaction: Some(now), ..after },
                        released + seq![
                            ring_event(pad, RingEvent::Pose(apply_spec(ring.axis.transform, raw))),
                            ring_event(pad, RingEvent::Frame(Some(now))),
                        ],
                    ),
                )
            }
        },
    }
}

/// A motion event: for a tool, its motion; otherwise, for a pad with a ring,
/// the ring's motion.
pub open spec fn motion_spec(v: EngineView, device: u16, time: u32, x: i32, y: i32, mask: Seq<u32>, values: Seq<Fixed>) -> EngineView {
    let timed = EngineView { server_time: time, ..v };
    match tool_lookup(v.registry.tools, device, v.generation) {
        Some((id, k)) => {
            let (info, ev) = tool_motion_step(id, v.registry.tool_infos[k], time, x, y, mask, values);
            EngineView {
                registry: RegistryView { tool_infos: v.registry.tool_infos.update(k, info), ..v.registry },
                events: v.events + ev,
                ..timed
            }
        },
        None => match pad_lookup(v.registry.pads, device, v.generation) {
            Some((id, k)) => match v.registry.pad_infos[k].ring {
                Some(ring) => match ring_motion_step(id, ring, time, mask, values) {
                    Some((r, ev)) => EngineView {
                        registry: RegistryView {
                            pad_infos: v.registry.pad_infos.update(k, PadInfo { ring: Some(r), ..v.registry.pad_infos[k] }),
                            ..v.registry
                        },
                        events: v.events + ev,
                        ..timed
                    },
                    None => timed,
                },
                None => timed,
            },
            None => timed,
        },
    }
}

fn read_axis(axis: Option<AxisInfo>, mask: &Vec<u32>, values: &Vec<Fixed>) -> (r: Option<Scaled>)
    requires
        crate::tracker::opt_axis_wf(axis),
    ensures
        r == axis_reading(axis, mask@, values@),
{
    match axis {
        Some(a) => match valuator_fetch(mask, values, a.index) {
            Some(v) => Some(a.transform.apply(v)),
            None => None,
        },
        None => None,
    }
}

fn tool_motion(
    info: &mut ToolInfo,
    id: DeviceId,
    time: u32,
    x: i32,
    y: i32,
    mask: &Vec<u32>,
    values: &Vec<Fixed>,
    events: &mut Vec<Event>,
)
    requires
        old(info).wf(),
    ensures
        final(info).wf(),
        (*final(info), final(events)@) == ({
            let (i, ev) = tool_motion_step(id, *old(info), time, x, y, mask@, values@);
            (i, old(events)@ + ev)
        }),
{
    let ghost start = events@;
    let ghost before = *info;
    info.flush_frame(id, time, events);
    let ghost flushed = events@;
    info.ensure_in(id, events);
    let pressure = read_axis(info.pressure, mask, values);
    let tilt_x = read_axis(info.tilt_x, mask, values);
    let tilt_y = read_axis(info.tilt_y, mask, values);
    let zero = Scaled { num: 0, den: FRAC_ONE, unit: Unit::Degree };
    let tilt = match (tilt_x, tilt_y) {
        (Some(a), Some(b)) => Some(Tilt { x: a, y: b }),
        (Some(a), None) => Some(Tilt { x: a, y: zero }),
        (None, Some(b)) => Some(Tilt { x: zero, y: b }),
        (None, None) => None,
    };
    let pose = Pose { x, y, pressure, tilt };
    events.push(Event::Tool { tool: id, event: ToolEvent::Pose(pose) });
    info.last_interaction = Some(time);
    proof {
        assert(pose == pose_spec(before, x, y, mask@, values@));
        assert(events@ =~= start + tool_motion_step(id, before, time, x, y, mask@, values@).1);
    }
}

fn ring_motion(
    ring: &mut RingInfo,
    pad: DeviceId,
    now: u32,
    mask: &Vec<u32>,
    values: &Vec<Fixed>,
    events: &mut Vec<Event>,
) -> (reported: bool)
    requires
        old(ring).axis.transform.wf(),
    ensures
        final(ring).axis == old(ring).axis,
        reported == ring_motion_step(pad, *old(ring), now, mask@, values@) is Some,
        reported ==> Some((*final(ring), final(events)@)) == ({
            match ring_motion_step(pad, *old(ring), now, mask@, values@) {
                Some((r, ev)) => Some((r, old(events)@ + ev)),
                None => None,
            }
        }),
        !reported ==> *final(ring) == *old(ring) && final(events)@ == old(events)@,
{
    let raw = match valuator_fetch(mask, values, ring.axis.index) {
        Some(raw) => raw,
        None => return false,
    };
    let ghost start = events@;
    let ghost before = *ring;
    let angle = ring.axis.transform.apply(raw);
    ring.expire(pad, now, events);
    if raw == (Fixed { integral: 0, frac: 0 }) {
        return true;
    }
    events.push(Event::Pad { pad, event: PadEvent::Ring(RingEvent::Pose(angle)) });
    events.push(Event::Pad { pad, event: PadEvent::Ring(RingEvent::Frame(Some(now))) });
    ring.last_interaction = Some(now);
    proof {
        let (r, ev) = ring_motion_step(pad, before, now, mask@, values@)->Some_0;
        assert(events@ =~= start + ev);
    }
    true
}

impl Engine {
    pub open spec fn wf(&self) -> bool {
        self.registry.wf()
    }

    /// Handles a motion event.
    pub fn motion(&mut self, device: u16, time: u32, x: i32, y: i32, mask: &Vec<u32>, values: &Vec<Fixed>)
        requires
            old(self).wf(),
        ensures
            final(self).wf(),
            final(self)@ == motion_spec(old(self)@, device, time, x, y, mask@, values@),
    {
        self.server_time = time;
        if let Some((id, k)) = tool_info_mut_from_device_id(device, &self.registry.tools, self.generation) {
            let mut info = self.registry.tool_infos[k];
            tool_motion(&mut info, id, time, x, y, mask, values, &mut self.events);
            self.registry.tool_infos.set(k, info);
            proof {
                assert(self.registry.tool_infos@.len() == old(self).registry.tool_infos@.len());
                assert forall|i: int| 0 <= i < self.registry.tool_infos@.len() implies (#[trigger] self.registry.tool_infos@[i]).wf() by {
                    if i != k {
                        assert(self.registry.tool_infos@[i] == old(self).registry.tool_infos@[i]);
                    }
                }
            }
            return;
        }
        if let Some((id, k)) = pad_mut_from_device_id(device, self.registry.pads.as_slice(), self.generation) {
            let pad_info = self.registry.pad_infos[k];
            if let Some(ring) = pad_info.ring {
                let mut ring = ring;
                if ring_motion(&mut ring, id, time, mask, values, &mut self.events) {
                    self.registry.pad_infos.set(k, PadInfo { ring: Some(ring), ..pad_info });
                    proof {
                        assert forall|i: int| 0 <= i < self.registry.pad_infos@.len() implies (#[trigger] self.registry.pad_infos@[i]).wf() by {
                            if i != k {
                                assert(self.registry.pad_infos@[i] == old(self).registry.pad_infos@[i]);
                            }
                        }
                    }
                }
            }
        }
    }
}

/// A tool's button: ensure the tool is in; button 1 is the tip and moves the
/// tool down or back in; button 0 does nothing more; any other is reported.
pub open spec fn tool_button_step(id: DeviceId, info: ToolInfo, button: u16, pressed: bool, time: u32) -> (ToolInfo, Seq<Event>) {
    let inside = ToolInfo { phase: entered(info.phase), last_interaction: Some(time), ..info };
    let ev = enter_events(id, info);
    if button == 0 {
        (inside, ev)
    } else if button == 1 {
        let target = if pressed { Phase::Down } else { Phase::In };
        (ToolInfo { phase: target, ..inside }, ev + phase_events(id, info.tablet, inside.phase, target))
    } else {
        (inside, ev + seq![tool_event(id, ToolEvent::Button { button_id: button, pressed })])
    }
}

/// A button event. Presses that the server emulates from scrolling are
/// ignored. A pad reports buttons `1..=total_buttons`, passed on from zero;
/// others are dropped.
pub open spec fn button_spec(v: EngineView, device: u16, time: u32, detail: u32, pressed: bool, emulated: bool) -> EngineView {
    let timed = EngineView { server_time: time, ..v };
    if emulated {
        timed
    } else {
        match tool_lookup(v.registry.tools, device, v.generation) {
            Some((id, k)) => if detail > u16::MAX {
                timed
            } else {
                let (info, ev) = tool_button_step(id, v.registry.tool_infos[k], detail as u16, pressed, time);
                EngineView {
                    registry: RegistryView { tool_infos: v.registry.tool_infos.update(k, info), ..v.registry },
                    events: v.events + ev,
                    ..timed
                }
            },
            None => match pad_lookup(v.registry.pads, device, v.generation) {
                Some((id, k)) => if detail == 0 || detail > v.registry.pads[k].total_buttons {
                    timed
                } else {
                    EngineView {
                        events: v.events.push(
                            Event::Pad { pad: id, event: PadEvent::Button { button_idx: (detail - 1) as u16, pressed } },
                        ),
                        ..timed
                    }
                },
                None => timed,
            },
        }
    }
}

fn tool_button(info: &mut ToolInfo, id: DeviceId, button: u16, pressed: bool, time: u32, events: &mut Vec<Event>)
    requires
        old(info).wf(),
    ensures
        final(info).wf(),
        (*final(info), final(events)@) == ({
            let (i, ev) = tool_button_step(id, *old(info), button, pressed, time);
            (i, old(events)@ + ev)
        }),
{
    let ghost start = events@;
    let ghost before = *info;
    info.ensure_in(id, events);
    info.last_interaction = Some(time);
    let ghost inside = events@;
    if button == 1 {
        info.set_phase(id, if pressed { Phase::Down } else { Phase::In }, events);
    } else if button != 0 {
        events.push(Event::Tool { tool: id, event: ToolEvent::Button { button_id: button, pressed } });
    }
    proof {
        assert(events@ =~= start + tool_button_step(id, before, button, pressed, time).1);
    }
}

/// Whether a device attached to masters `pointer` and `keyboard` follows master `master`.
pub open spec fn follows(pointer: u16, keyboard: u16, master: u16) -> bool {
    pointer == master || keyboard == master
}

/// The ungrabbed tools among the first `n` that follow `master`.
pub open spec fn tool_grabs(tools: Seq<ToolView>, infos: Seq<ToolInfo>, master: u16, n: int) -> Seq<u16>
    decreases n,
{
    if n <= 0 {
        Seq::empty()
    } else {
        tool_grabs(tools, infos, master, n - 1) + if !infos[n - 1].grabbed && follows(
            infos[n - 1].master_pointer,
            infos[n - 1].master_keyboard,
            master,
        ) {
            seq![raw_id(tools[n - 1].id)]
        } else {
            Seq::empty()
        }
    }
}

/// The ungrabbed pads among the first `n` that follow `master`.
pub open spec fn pad_grabs(pads: Seq<Pad>, infos: Seq<PadInfo>, master: u16, n: int) -> Seq<u16>
    decreases n,
{
    if n <= 0 {
        Seq::empty()
    } else {
        pad_grabs(pads, infos, master, n - 1) + if !infos[n - 1].grabbed && follows(
            infos[n - 1].master_pointer,
            infos[n - 1].master_keyboard,
            master,
        ) {
            seq![raw_id(pads[n - 1].id)]
        } else {
            Seq::empty()
        }
    }
}

/// The grabbed tools among the first `n` that follow `master`.
pub open spec fn tool_ungrabs(tools: Seq<ToolView>, infos: Seq<ToolInfo>, master: u16, n: int) -> Seq<u16>
    decreases n,
{
    if n <= 0 {
        Seq::empty()
    } else {
        tool_ungrabs(tools, infos, master, n - 1) + if infos[n - 1].grabbed && follows(
            infos[n - 1].master_pointer,
            infos[n - 1].master_keyboard,
            master,
        ) {
            seq![raw_id(tools[n - 1].id)]
        } else {
            Seq::empty()
        }
    }
}

/// The grabbed pads among the first `n` that follow `master`.
pub open spec fn pad_ungrabs(pads: Seq<Pad>, infos: Seq<PadInfo>, master: u16, n: int) -> Seq<u16>
    decreases n,
{
    if n <= 0 {
        Seq::empty()
    } else {
        pad_ungrabs(pads, infos, master, n - 1) + if infos[n - 1].grabbed && follows(
            infos[n - 1].master_pointer,
            infos[n - 1].master_keyboard,
            master,
        ) {
            seq![raw_id(pads[n - 1].id)]
        } else {
            Seq::empty()
        }
    }
}

/// A grabbed tool that follows a master leaving the window: close its
/// pending frame if it was in, and take it out.
pub open spec fn leave_tool(id: DeviceId, info: ToolInfo, master: u16, time: u32) -> (ToolInfo, Seq<Event>) {
    if !(info.grabbed && follows(info.master_pointer, info.master_keyboard, master)) {
        (info, Seq::empty())
    } else {
        let was_in = info.phase != Phase::Out;
        let flushed = if was_in { ToolInfo { frame_pending: Some(time), ..info } } else { info };
        let frame = if was_in { frame_flush_events(id, info.frame_pending, time) } else { Seq::empty() };
        (ToolInfo { phase: Phase::Out, ..flushed }, frame + phase_events(id, info.tablet, info.phase, Phase::Out))
    }
}

/// `leave_tool` over the first `n` tools: their new trackers and the events, in order.
pub open spec fn leave_tools(tools: Seq<ToolView>, infos: Seq<ToolInfo>, master: u16, time: u32, n: int) -> (Seq<ToolInfo>, Seq<Event>)
    decreases n,
{
    if n <= 0 {
        (Seq::empty(), Seq::empty())
    } else {
        let (done, ev) = leave_tools(tools, infos, master, time, n - 1);
        let (info, more) = leave_tool(tools[n - 1].id, infos[n - 1], master, time);
        (done.push(info), ev + more)
    }
}

/// Sets the grab flag of the device with raw id `device`, tools first.
pub open spec fn set_grab_spec(v: EngineView, device: u16, grabbed: bool) -> EngineView {
    match tool_lookup(v.registry.tools, device, v.generation) {
        Some((_, k)) => EngineView {
            registry: RegistryView {
                tool_infos: v.registry.tool_infos.update(k, ToolInfo { grabbed, ..v.registry.tool_infos[k] }),
                ..v.registry
            },
            ..v
        },
        None => match pad_lookup(v.registry.pads, device, v.generation) {
            Some((_, k)) => EngineView {
                registry: RegistryView {
                    pad_infos: v.registry.pad_infos.update(k, PadInfo { grabbed, ..v.registry.pad_infos[k] }),
                    ..v.registry
                },
                ..v
            },
            None => v,
        },
    }
}

impl Engine {
    /// Handles a button event.
    pub fn button(&mut self, device: u16, time: u32, detail: u32, pressed: bool, emulated: bool)
        requires
            old(self).wf(),
        ensures
            final(self).wf(),
            final(self)@ == button_spec(old(self)@, device, time, detail, pressed, emulated),
    {
        self.server_time = time;
        if emulated {
            return;
        }
        if let Some((id, k)) = tool_info_mut_from_device_id(device, &self.registry.tools, self.generation) {
            if detail > 0xFFFF {
                return;
            }
            let mut info = self.registry.tool_infos[k];
            tool_button(&mut info, id, detail as u16, pressed, time, &mut self.events);
            self.registry.tool_infos.set(k, info);
            proof {
                assert forall|i: int| 0 <= i < self.registry.tool_infos@.len() implies (#[trigger] self.registry.tool_infos@[i]).wf() by {
                    if i != k {
                        assert(self.registry.tool_infos@[i] == old(self).registry.tool_infos@[i]);
                    }
                }
            }
            return;
        }
        if let Some((id, k)) = pad_mut_from_device_id(device, self.registry.pads.as_slice(), self.generation) {
            let total = self.registry.pads[k].total_buttons;
            if detail == 0 || detail > total as u32 {
                return;
            }
            self.events.push(Event::Pad { pad: id, event: PadEvent::Button { button_idx: (detail - 1) as u16, pressed } });
        }
    }

    /// A master entered the window: the devices to grab.
    pub fn entered(&mut self, master: u16, time: u32) -> (r: Vec<u16>)
        requires
            old(self).wf(),
        ensures
            final(self).wf(),
            final(self)@ == (EngineView { server_time: time, ..old(self)@ }),
            r@ == tool_grabs(old(self)@.registry.tools, old(self)@.registry.tool_infos, master, old(self)@.registry.tools.len() as int)
                + pad_grabs(old(self)@.registry.pads, old(self)@.registry.pad_infos, master, old(self)@.registry.pads.len() as int),
    {
        self.server_time = time;
        let ghost v = self@;
        let mut r: Vec<u16> = Vec::new();
        let mut i: usize = 0;
        while i < self.registry.tool_infos.len()
            invariant
                self@ == v,
                self.wf(),
                i <= self.registry.tool_infos@.len(),
                r@ == tool_grabs(v.registry.tools, v.registry.tool_infos, master, i as int),
            decreases self.registry.tool_infos@.len() - i,
        {
            let info = self.registry.tool_infos[i];
            if !info.grabbed && (info.master_pointer == master || info.master_keyboard == master) {
                let raw = match self.registry.tools[i].id {
                    DeviceId::Device { device_id, .. } => device_id,
                    DeviceId::EmulatedTablet => 0,
                };
                r.push(raw);
            }
            proof {
                assert(r@ =~= tool_grabs(v.registry.tools, v.registry.tool_infos, master, i + 1));
            }
            i = i + 1;
        }
        let ghost tools_part = r@;
        let mut j: usize = 0;
        while j < self.registry.pad_infos.len()
            invariant
                self@ == v,
                self.wf(),
                j <= self.registry.pad_infos@.len(),
                r@ == tools_part + pad_grabs(v.registry.pads, v.registry.pad_infos, master, j as int),
            decreases self.registry.pad_infos@.len() - j,
        {
            let info = self.registry.pad_infos[j];
            if !info.grabbed && (info.master_pointer == master || info.master_keyboard == master) {
                let raw = match self.registry.pads[j].id {
                    DeviceId::Device { device_id, .. } => device_id,
                    DeviceId::EmulatedTablet => 0,
                };
                r.push(raw);
            }
            proof {
                assert(r@ =~= tools_part + pad_grabs(v.registry.pads, v.registry.pad_infos, master, j + 1));
            }
            j = j + 1;
        }
        r
    }

    /// A master left the window: tools that follow it leave proximity, and
    /// the grabbed devices that follow it are returned for release.
    pub fn left(&mut self, master: u16, time: u32) -> (r: Vec<u16>)
        requires
            old(self).wf(),
        ensures
            final(self).wf(),
            ({
                let v = old(self)@;
                let (infos, ev) = leave_tools(v.registry.tools, v.registry.tool_infos, master, time, v.registry.tools.len() as int);
                final(self)@ == (EngineView {
                    registry: RegistryView { tool_infos: infos, ..v.registry },
                    events: v.events + ev,
                    server_time: time,
                    ..v
                })
            }),
            r@ == tool_ungrabs(old(self)@.registry.tools, old(self)@.registry.tool_infos, master, old(self)@.registry.tools.len() as int)
                + pad_ungrabs(old(self)@.registry.pads, old(self)@.registry.pad_infos, master, old(self)@.registry.pads.len() as int),
    {
        self.server_time = time;
        let ghost v = self@;
        let mut r: Vec<u16> = Vec::new();
        let mut infos: Vec<ToolInfo> = Vec::new();
        let mut i: usize = 0;
        while i < self.registry.tool_infos.len()
            invariant
                self.registry@ == v.registry,
                self.server_time == v.server_time,
                self.generation == v.generation,
                self.repopulated == v.repopulated,
                self.registry.wf(),
                i <= self.registry.tool_infos@.len(),
                r@ == tool_ungrabs(v.registry.tools, v.registry.tool_infos, master, i as int),
                infos@ == leave_tools(v.registry.tools, v.registry.tool_infos, master, time, i as int).0,
                self.events@ == v.events + leave_tools(v.registry.tools, v.registry.tool_infos, master, time, i as int).1,
                infos@.len() == i,
                forall|j: int| 0 <= j < i ==> (#[trigger] infos@[j]).wf(),
            decreases self.registry.tool_infos@.len() - i,
        {
            let mut info = self.registry.tool_infos[i];
            let id = self.registry.tools[i].id;
            let ghost before_events = self.events@;
            if info.grabbed && (info.master_pointer == master || info.master_keyboard == master) {
                if info.phase != Phase::Out {
                    info.flush_frame(id, time, &mut self.events);
                }
                info.set_phase(id, Phase::Out, &mut self.events);
                let raw = match id {
                    DeviceId::Device { device_id, .. } => device_id,
                    DeviceId::EmulatedTablet => 0,
                };
                r.push(raw);
            }
            infos.push(info);
            proof {
                let (p, e) = leave_tools(v.registry.tools, v.registry.tool_infos, master, time, i as int);
                let (ni, ne) = leave_tool(id, v.registry.tool_infos[i as int], master, time);
                assert(infos@ =~= p.push(ni));
                assert(self.events@ =~= v.events + (e + ne));
                assert(r@ =~= tool_ungrabs(v.registry.tools, v.registry.tool_infos, master, i + 1));
            }
            i = i + 1;
        }
        let ghost tools_part = r@;
        let mut j: usize = 0;
        while j < self.registry.pad_infos.len()
            invariant
                self.registry@ == v.registry,
                self.registry.wf(),
                j <= self.registry.pad_infos@.len(),
                r@ == tools_part + pad_ungrabs(v.registry.pads, v.registry.pad_infos, master, j as int),
            decreases self.registry.pad_infos@.len() - j,
        {
            let info = self.registry.pad_infos[j];
            if info.grabbed && (info.master_pointer == master || info.master_keyboard == master) {
                let raw = match self.registry.pads[j].id {
                    DeviceId::Device { device_id, .. } => device_id,
                    DeviceId::EmulatedTablet => 0,
                };
                r.push(raw);
            }
            proof {
                assert(r@ =~= tools_part + pad_ungrabs(v.registry.pads, v.registry.pad_infos, master, j + 1));
            }
            j = j + 1;
        }
        self.registry.tool_infos = infos;
        r
    }

    fn set_grabbed(&mut self, device: u16, grabbed: bool)
        requires
            old(self).wf(),
        ensures
            final(self).wf(),
            final(self)@ == set_grab_spec(old(self)@, device, grabbed),
    {
        if let Some((_, k)) = tool_info_mut_from_device_id(device, &self.registry.tools, self.generation) {
            let info = self.registry.tool_infos[k];
            self.registry.tool_infos.set(k, ToolInfo { grabbed, ..info });
            proof {
                assert forall|i: int| 0 <= i < self.registry.tool_infos@.len() implies (#[trigger] self.registry.tool_infos@[i]).wf() by {
                    if i != k {
                        assert(self.registry.tool_infos@[i] == old(self).registry.tool_infos@[i]);
                    }
                }
            }
            return;
        }
        if let Some((_, k)) = pad_mut_from_device_id(device, self.registry.pads.as_slice(), self.generation) {
            let info = self.registry.pad_infos[k];
            self.registry.pad_infos.set(k, PadInfo { grabbed, ..info });
            proof {
                assert forall|i: int| 0 <= i < self.registry.pad_infos@.len() implies (#[trigger] self.registry.pad_infos@[i]).wf() by {
                    if i != k {
                        assert(self.registry.pad_infos@[i] == old(self).registry.pad_infos@[i]);
                    }
                }
            }
        }
    }

    /// Reports the outcome of a grab; only a success marks the device grabbed.
    pub fn grab_done(&mut self, device: u16, success: bool)
        requires
            old(self).wf(),
        ensures
            final(self).wf(),
            final(self)@ == if success { set_grab_spec(old(self)@, device, true) } else { old(self)@ },
    {
        if success {
            self.set_grabbed(device, true);
        }
    }

    /// Reports the outcome of a release; only a success marks the device
    /// released, so that a failed release is tried again.
    pub fn ungrab_done(&mut self, device: u16, success: bool)
        requires
            old(self).wf(),
        ensures
            final(self).wf(),
            final(self)@ == if success { set_grab_spec(old(self)@, device, false) } else { old(self)@ },
    {
        if success {
            self.set_grabbed(device, false);
        }
    }
}

/// A pad at the end of a tick: its ring is released if idle long enough.
pub open spec fn ring_end(pad: DeviceId, info: PadInfo, now: u32) -> (PadInfo, Seq<Event>) {
    match info.ring {
        Some(r) => (
            PadInfo {
                ring: Some(
                    RingInfo {
                        last_interaction: if timed_out(r.last_interaction, now, RING_TIMEOUT_MS) {
                            None
                        } else {
                            r.last_interaction
                        },
                        ..r
                    },
                ),
                ..info
            },
            ring_timeout_events(pad, r, now),
        ),
        None => (info, Seq::empty()),
    }
}

/// `ring_end` over the first `n` pads.
pub open spec fn rings_end(pads: Seq<Pad>, infos: Seq<PadInfo>, now: u32, n: int) -> (Seq<PadInfo>, Seq<Event>)
    decreases n,
{
    if n <= 0 {
        (Seq::empty(), Seq::empty())
    } else {
        let (done, ev) = rings_end(pads, infos, now, n - 1);
        let (info, more) = ring_end(pads[n - 1].id, infos[n - 1], now);
        (done.push(info), ev + more)
    }
}

/// A tool at the end of a tick: its pending frame is closed, and it leaves
/// if idle long enough.
pub open spec fn tool_end(id: DeviceId, info: ToolInfo, now: u32) -> (ToolInfo, Seq<Event>) {
    let frame = match info.frame_pending {
        Some(t) => seq![tool_event(id, ToolEvent::Frame(Some(t)))],
        None => Seq::empty(),
    };
    let taken = ToolInfo { frame_pending: None, ..info };
    let after = if timed_out(taken.last_interaction, now, TOOL_TIMEOUT_MS) {
        ToolInfo { last_interaction: None, phase: Phase::Out, ..taken }
    } else {
        taken
    };
    (after, frame + tool_timeout_events(id, taken, now))
}

/// `tool_end` over the first `n` tools.
pub open spec fn tools_end(tools: Seq<ToolView>, infos: Seq<ToolInfo>, now: u32, n: int) -> (Seq<ToolInfo>, Seq<Event>)
    decreases n,
{
    if n <= 0 {
        (Seq::empty(), Seq::empty())
    } else {
        let (done, ev) = tools_end(tools, infos, now, n - 1);
        let (info, more) = tool_end(tools[n - 1].id, infos[n - 1], now);
        (done.push(info), ev + more)
    }
}

/// The end of a tick: ring releases, then tool frames and tool timeouts.
pub open spec fn end_tick_spec(v: EngineView) -> EngineView {
    let (pads, pad_events) = rings_end(v.registry.pads, v.registry.pad_infos, v.server_time, v.registry.pads.len() as int);
    let (tools, tool_events) = tools_end(v.registry.tools, v.registry.tool_infos, v.server_time, v.registry.tools.len() as int);
    EngineView {
        registry: RegistryView { pad_infos: pads, tool_infos: tools, ..v.registry },
        events: v.events + pad_events + tool_events,
        ..v
    }
}

/// Each pad announces the tablet it belongs to, once per enumeration.
pub open spec fn pad_enter_events(pads: Seq<Pad>, infos: Seq<PadInfo>, n: int) -> Seq<Event>
    decreases n,
{
    if n <= 0 {
        Seq::empty()
    } else {
        pad_enter_events(pads, infos, n - 1).push(
            Event::Pad { pad: pads[n - 1].id, event: PadEvent::Enter { tablet: infos[n - 1].tablet } },
        )
    }
}

/// The epoch after `g`.
pub open spec fn next_generation(g: u16) -> u16 {
    if g == u16::MAX { 0 } else { (g + 1) as u16 }
}

impl Engine {
    /// The first enumeration, in epoch zero.
    pub fn new(listed: &Vec<ListedDevice>, queries: &Vec<QueriedDevice>) -> (r: Engine)
        ensures
            r.wf(),
            r@.registry == crate::classify::registry_spec(listed@, queries@, 0),
            r@.events == pad_enter_events(r@.registry.pads, r@.registry.pad_infos, r@.registry.pads.len() as int),
            r@.server_time == 0,
            r@.generation == 0,
            !r@.repopulated,
    {
        let mut r = Engine { registry: classify(listed, queries, 0), events: Vec::new(), server_time: 0, generation: 0, repopulated: false };
        r.announce_pads();
        r
    }

    fn announce_pads(&mut self)
        requires
            old(self).wf(),
        ensures
            final(self).wf(),
            final(self)@ == (EngineView {
                events: old(self)@.events + pad_enter_events(
                    old(self)@.registry.pads,
                    old(self)@.registry.pad_infos,
                    old(self)@.registry.pads.len() as int,
                ),
                ..old(self)@
            }),
    {
        let ghost v = self@;
        let mut i: usize = 0;
        while i < self.registry.pads.len()
            invariant
                self.registry@ == v.registry,
                self.server_time == v.server_time,
                self.generation == v.generation,
                self.repopulated == v.repopulated,
                self.registry.wf(),
                i <= self.registry.pads@.len(),
                self.events@ == v.events + pad_enter_events(v.registry.pads, v.registry.pad_infos, i as int),
            decreases self.registry.pads@.len() - i,
        {
            let e = Event::Pad { pad: self.registry.pads[i].id, event: PadEvent::Enter { tablet: self.registry.pad_infos[i].tablet } };
            self.events.push(e);
            proof {
                assert(self.events@ =~= v.events + pad_enter_events(v.registry.pads, v.registry.pad_infos, i + 1));
            }
            i = i + 1;
        }
    }

    /// Enumerates again in a new epoch: all records and trackers are rebuilt.
    pub fn repopulate(&mut self, listed: &Vec<ListedDevice>, queries: &Vec<QueriedDevice>)
        requires
            old(self).wf(),
        ensures
            final(self).wf(),
            ({
                let g = next_generation(old(self).generation);
                let reg = crate::classify::registry_spec(listed@, queries@, g);
                final(self)@ == (EngineView {
                    registry: reg,
                    events: old(self)@.events + pad_enter_events(reg.pads, reg.pad_infos, reg.pads.len() as int),
                    generation: g,
                    ..old(self)@
                })
            }),
    {
        self.generation = if self.generation == 0xFFFF { 0 } else { self.generation + 1 };
        self.registry = classify(listed, queries, self.generation);
        self.announce_pads();
    }

    /// Starts a tick: the previous tick's events are dropped.
    pub fn begin_tick(&mut self)
        requires
            old(self).wf(),
        ensures
            final(self).wf(),
            final(self)@ == (EngineView { events: Seq::empty(), repopulated: false, ..old(self)@ }),
    {
        self.events.clear();
        self.repopulated = false;
    }

    /// Ends a tick: rings and tools idle past their timeouts are released,
    /// and pending tool frames are closed.
    pub fn end_tick(&mut self)
        requires
            old(self).wf(),
        ensures
            final(self).wf(),
            final(self)@ == end_tick_spec(old(self)@),
    {
        let ghost v = self@;
        let now = self.server_time;
        let mut pads: Vec<PadInfo> = Vec::new();
        let mut i: usize = 0;
        while i < self.registry.pad_infos.len()
            invariant
                self.registry@ == v.registry,
                self.server_time == now,
                now == v.server_time,
                self.generation == v.generation,
                self.repopulated == v.repopulated,
                self.registry.wf(),
                i <= self.registry.pad_infos@.len(),
                pads@.len() == i,
                pads@ == rings_end(v.registry.pads, v.registry.pad_infos, now, i as int).0,
                self.events@ == v.events + rings_end(v.registry.pads, v.registry.pad_infos, now, i as int).1,
                forall|j: int| 0 <= j < i ==> (#[trigger] pads@[j]).wf(),
            decreases self.registry.pad_infos@.len() - i,
        {
            let mut info = self.registry.pad_infos[i];
            let id = self.registry.pads[i].id;
            if let Some(ring) = info.ring {
                let mut ring = ring;
                ring.expire(id, now, &mut self.events);
                info.ring = Some(ring);
            } else {
                proof {
                    assert(self.events@ =~= self.events@ + Seq::<Event>::empty());
                }
            }
            pads.push(info);
            proof {
                let (p, e) = rings_end(v.registry.pads, v.registry.pad_infos, now, i as int);
                let (ni, ne) = ring_end(id, v.registry.pad_infos[i as int], now);
                assert(pads@ =~= p.push(ni));
                assert(self.events@ =~= v.events + (e + ne));
            }
            i = i + 1;
        }
        let ghost after_pads = self.events@;
        let mut tools: Vec<ToolInfo> = Vec::new();
        let mut k: usize = 0;
        while k < self.registry.tool_infos.len()
            invariant
                self.registry@ == v.registry,
                self.server_time == now,
                now == v.server_time,
                self.generation == v.generation,
                self.repopulated == v.repopulated,
                self.registry.wf(),
                k <= self.registry.tool_infos@.len(),
                tools@.len() == k,
                tools@ == tools_end(v.registry.tools, v.registry.tool_infos, now, k as int).0,
                self.events@ == after_pads + tools_end(v.registry.tools, v.registry.tool_infos, now, k as int).1,
                forall|j: int| 0 <= j < k ==> (#[trigger] tools@[j]).wf(),
            decreases self.registry.tool_infos@.len() - k,
        {
            let mut info = self.registry.tool_infos[k];
            let id = self.registry.tools[k].id;
            let ghost start = self.events@;
            if let Some(t) = info.frame_pending {
                self.events.push(Event::Tool { tool: id, event: ToolEvent::Frame(Some(t)) });
            }
            info.frame_pending = None;
            info.expire(id, now, &mut self.events);
            tools.push(info);
            proof {
                let (p, e) = tools_end(v.registry.tools, v.registry.tool_infos, now, k as int);
                let (ni, ne) = tool_end(id, v.registry.tool_infos[k as int], now);
                assert(tools@ =~= p.push(ni));
                assert(self.events@ =~= after_pads + (e + ne));
            }
            k = k + 1;
        }
        self.registry.pad_infos = pads;
        self.registry.tool_infos = tools;
        proof {
            assert(self.events@ =~= end_tick_spec(v).events);
        }
    }

    /// Handles one protocol event and says what the caller must do next.
    pub fn handle(&mut self, event: &InputEvent) -> (r: Action)
        requires
            old(self).wf(),
        ensures
            final(self).wf(),
            match *event {
                InputEvent::Hierarchy { time } => {
                    &&& final(self)@ == (EngineView { server_time: time, repopulated: true, ..old(self)@ })
                    &&& if old(self).repopulated { r is Nothing } else { r is Repopulate }
                },
                InputEvent::Enter { device, time } => {
                    let v = old(self)@;
                    &&& final(self)@ == (EngineView { server_time: time, ..v })
                    &&& r matches Action::Grab { devices, time: t } && t == time
                        && devices@ == tool_grabs(v.registry.tools, v.registry.tool_infos, device, v.registry.tools.len() as int)
                            + pad_grabs(v.registry.pads, v.registry.pad_infos, device, v.registry.pads.len() as int)
                },
                InputEvent::Leave { device, time } => {
                    let v = old(self)@;
                    let (infos, ev) = leave_tools(v.registry.tools, v.registry.tool_infos, device, time, v.registry.tools.len() as int);
                    &&& final(self)@ == (EngineView {
                        registry: RegistryView { tool_infos: infos, ..v.registry },
                        events: v.events + ev,
                        server_time: time,
                        ..v
                    })
                    &&& r matches Action::Ungrab { devices, time: t } && t == time
                        && devices@ == tool_ungrabs(v.registry.tools, v.registry.tool_infos, device, v.registry.tools.len() as int)
                            + pad_ungrabs(v.registry.pads, v.registry.pad_infos, device, v.registry.pads.len() as int)
                },
                InputEvent::Button { device, time, detail, pressed, emulated } => {
                    &&& final(self)@ == button_spec(old(self)@, device, time, detail, pressed, emulated)
                    &&& r is Nothing
                },
                InputEvent::Motion { device, time, x, y, mask, values } => {
                    &&& final(self)@ == motion_spec(old(self)@, device, time, x, y, mask@, values@)
                    &&& r is Nothing
                },
                InputEvent::Other => {
                    &&& final(self)@ == old(self)@
                    &&& r is Nothing
                },
            },
    {
        match event {
            InputEvent::Hierarchy { time } => {
                self.server_time = *time;
                if self.repopulated {
                    Action::Nothing
                } else {
                    self.repopulated = true;
                    Action::Repopulate
                }
            },
            InputEvent::Enter { device, time } => {
                let devices = self.entered(*device, *time);
                Action::Grab { devices, time: *time }
            },
            InputEvent::Leave { device, time } => {
                let devices = self.left(*device, *time);
                Action::Ungrab { devices, time: *time }
            },
            InputEvent::Button { device, time, detail, pressed, emulated } => {
                self.button(*device, *time, *detail, *pressed, *emulated);
                Action::Nothing
            },
            InputEvent::Motion { device, time, x, y, mask, values } => {
                self.motion(*device, *time, *x, *y, mask, values);
                Action::Nothing
            },
            InputEvent::Other => Action::Nothing,
        }
    }

    /// The events of the current tick.
    pub fn raw_events(&self) -> (r: &[Event])
        ensures
            r@ == self@.events,
    {
        self.events.as_slice()
    }

    pub fn tools(&self) -> (r: &[Tool])
        ensures
            r@ == self.registry.tools@,
    {
        self.registry.tools.as_slice()
    }

    pub fn pads(&self) -> (r: &[Pad])
        ensures
            r@ == self@.registry.pads,
    {
        self.registry.pads.as_slice()
    }

    pub fn tablets(&self) -> (r: &[Tablet])
        ensures
            r@ == self.registry.tablets@,
    {
        self.registry.tablets.as_slice()
    }

    /// Timestamps are in whole milliseconds.
    pub fn timestamp_granularity_ms(&self) -> (r: u64)
        ensures
            r == 1,
    {
        1
    }

    /// Records the vendor and product id read from tablet `index`'s product-id property.
    pub fn set_tablet_usb_id(&mut self, index: usize, usb_id: Option<UsbId>)
        requires
            old(self).wf(),
            index < old(self).registry.tablets@.len(),
        ensures
            final(self).wf(),
            final(self)@ == (EngineView {
                registry: RegistryView {
                    tablets: old(self)@.registry.tablets.update(
                        index as int,
                        TabletView { usb_id, ..old(self)@.registry.tablets[index as int] },
                    ),
                    ..old(self)@.registry
                },
                ..old(self)@
            }),
    {
        let old_tablet = &self.registry.tablets[index];
        let name = match &old_tablet.name {
            Some(n) => {
                let copy = crate::bytes::copy_range(n.as_slice(), 0, n.len());
                proof {
                    assert(n@.subrange(0, n@.len() as int) =~= n@);
                }
                Some(copy)
            },
            None => None,
        };
        let t = Tablet { id: old_tablet.id, name, usb_id };
        let ghost tv = t@;
        self.registry.tablets.set(index, t);
        proof {
            assert(self@.registry.tablets =~= old(self)@.registry.tablets.update(index as int, tv));
        }
    }
}

/// Whether an event is a ring angle.
pub open spec fn is_ring_pose(e: Event) -> bool {
    e matches Event::Pad { event: PadEvent::Ring(RingEvent::Pose(_)), .. }
}

/// Whether an event is a tool frame.
pub open spec fn is_tool_frame(e: Event) -> bool {
    e matches Event::Tool { event: ToolEvent::Frame(_), .. }
}

/// Whatever state a ring is in, a zero sample is never emitted as an angle:
/// at most the release of a timed-out interaction comes out.
pub proof fn lemma_ring_zero_dropped(pad: DeviceId, ring: RingInfo, now: u32, mask: Seq<u32>, values: Seq<Fixed>)
    requires
        valuator_spec(mask, values, ring.axis.index) == Some(Fixed { integral: 0, frac: 0 }),
    ensures
        ring_motion_step(pad, ring, now, mask, values) matches Some((_, ev)) && ev == ring_timeout_events(pad, ring, now)
            && forall|k: int| 0 <= k < ev.len() ==> !is_ring_pose(#[trigger] ev[k]),
{
}

/// Motion at the timestamp already pending closes no frame: a second motion
/// at the same time emits only its pose. The frame for that time comes once,
/// carrying it, when motion at another time arrives or the tick ends.
pub proof fn lemma_same_time_coalesced(
    id: DeviceId,
    info: ToolInfo,
    t: u32,
    x1: i32,
    y1: i32,
    mask1: Seq<u32>,
    values1: Seq<Fixed>,
    x2: i32,
    y2: i32,
    mask2: Seq<u32>,
    values2: Seq<Fixed>,
)
    ensures
        ({
            let (first, ev1) = tool_motion_step(id, info, t, x1, y1, mask1, values1);
            let (second, ev2) = tool_motion_step(id, first, t, x2, y2, mask2, values2);
            &&& forall|k: int| 0 <= k < ev1.len() ==> #[trigger] ev1[k] != tool_event(id, ToolEvent::Frame(Some(t)))
            &&& ev2 == seq![tool_event(id, ToolEvent::Pose(pose_spec(first, x2, y2, mask2, values2)))]
            &&& second.frame_pending == Some(t)
        }),
{
    let (first, ev1) = tool_motion_step(id, info, t, x1, y1, mask1, values1);
    let flush = frame_flush_events(id, info.frame_pending, t);
    assert forall|k: int| 0 <= k < ev1.len() implies #[trigger] ev1[k] != tool_event(id, ToolEvent::Frame(Some(t))) by {
        if k < flush.len() {
            assert(ev1[k] == flush[k]);
        } else {
            assert(!is_tool_frame(ev1[k]));
        }
    }
    let (second, ev2) = tool_motion_step(id, first, t, x2, y2, mask2, values2);
    assert(ev2 =~= seq![tool_event(id, ToolEvent::Pose(pose_spec(first, x2, y2, mask2, values2)))]);
}

/// A tool with events pending at `t`: the next motion at another time opens
/// with the frame for `t`, and so does the end of the tick.
pub proof fn lemma_pending_frame_closed(id: DeviceId, info: ToolInfo, t: u32, t2: u32, now: u32, x: i32, y: i32, mask: Seq<u32>, values: Seq<Fixed>)
    requires
        info.frame_pending == Some(t),
    ensures
        t2 != t ==> tool_motion_step(id, info, t2, x, y, mask, values).1[0] == tool_event(id, ToolEvent::Frame(Some(t))),
        tool_end(id, info, now).1[0] == tool_event(id, ToolEvent::Frame(Some(t))),
        tool_end(id, info, now).0.frame_pending is None,
{
}

/// Whether an event concerns tool `id`.
pub open spec fn about_tool(id: DeviceId) -> spec_fn(Event) -> bool {
    |e: Event| e matches Event::Tool { tool, .. } && tool == id
}

/// Whether an event concerns pad `id`.
pub open spec fn about_pad(id: DeviceId) -> spec_fn(Event) -> bool {
    |e: Event| e matches Event::Pad { pad, .. } && pad == id
}

/// The events of `ev` that concern tool `id`, in order.
pub open spec fn tool_events_of(ev: Seq<Event>, id: DeviceId) -> Seq<Event> {
    ev.filter(about_tool(id))
}

/// The events of `ev` that concern pad `id`, in order.
pub open spec fn pad_events_of(ev: Seq<Event>, id: DeviceId) -> Seq<Event> {
    ev.filter(about_pad(id))
}

pub open spec fn distinct_tools(tools: Seq<ToolView>) -> bool {
    forall|a: int, b: int| 0 <= a < b < tools.len() ==> (#[trigger] tools[a]).id != (#[trigger] tools[b]).id
}

pub open spec fn distinct_pads(pads: Seq<Pad>) -> bool {
    forall|a: int, b: int| 0 <= a < b < pads.len() ==> (#[trigger] pads[a]).id != (#[trigger] pads[b]).id
}

/// Filtering keeps every element of `s` that the predicate accepts and
/// drops every one it rejects.
proof fn lemma_filter_all<A>(s: Seq<A>, pred: spec_fn(A) -> bool)
    ensures
        (forall|i: int| 0 <= i < s.len() ==> pred(#[trigger] s[i])) ==> s.filter(pred) == s,
        (forall|i: int| 0 <= i < s.len() ==> !pred(#[trigger] s[i])) ==> s.filter(pred) == Seq::<A>::empty(),
    decreases s.len(),
{
    reveal_with_fuel(Seq::filter, 1);
    if s.len() > 0 {
        let t = s.drop_last();
        assert forall|i: int| 0 <= i < t.len() implies t[i] == s[i] by {}
        lemma_filter_all(t, pred);
        assert(t.push(s.last()) =~= s);
    } else {
        assert(s =~= Seq::<A>::empty());
    }
}

/// Filtering distributes over concatenation.
proof fn lemma_filter_add<A>(a: Seq<A>, b: Seq<A>, pred: spec_fn(A) -> bool)
    ensures
        (a + b).filter(pred) == a.filter(pred) + b.filter(pred),
{
    Seq::filter_distributes_over_add(a, b, pred);
}

/// Every event of a tool's end-of-tick block concerns that tool.
proof fn lemma_tool_end_about(id: DeviceId, info: ToolInfo, now: u32)
    ensures
        forall|i: int| 0 <= i < tool_end(id, info, now).1.len() ==> about_tool(id)(#[trigger] tool_end(id, info, now).1[i]),
{
}

/// Every event of a ring's end-of-tick block concerns that pad and no tool.
proof fn lemma_ring_end_about(id: DeviceId, info: PadInfo, now: u32)
    ensures
        forall|i: int| 0 <= i < ring_end(id, info, now).1.len() ==> about_pad(id)(#[trigger] ring_end(id, info, now).1[i]),
        forall|i: int| 0 <= i < ring_end(id, info, now).1.len() ==> (#[trigger] ring_end(id, info, now).1[i]) is Pad,
{
}

/// The tools' end-of-tick blocks hold nothing about a tool that is not among them.
proof fn lemma_tools_end_absent(tools: Seq<ToolView>, infos: Seq<ToolInfo>, now: u32, n: int, id: DeviceId)
    requires
        0 <= n <= tools.len(),
        n <= infos.len(),
        forall|j: int| 0 <= j < n ==> (#[trigger] tools[j]).id != id,
    ensures
        tool_events_of(tools_end(tools, infos, now, n).1, id) == Seq::<Event>::empty(),
    decreases n,
{
    reveal_with_fuel(Seq::filter, 1);
    if n <= 0 {
        assert(tools_end(tools, infos, now, n).1 =~= Seq::<Event>::empty());
    } else {
        let (_, ev) = tools_end(tools, infos, now, n - 1);
        let (_, more) = tool_end(tools[n - 1].id, infos[n - 1], now);
        lemma_tools_end_absent(tools, infos, now, n - 1, id);
        lemma_filter_add(ev, more, about_tool(id));
        lemma_tool_end_about(tools[n - 1].id, infos[n - 1], now);
        lemma_filter_all(more, about_tool(id));
        assert(tool_events_of(ev, id) + Seq::<Event>::empty() =~= Seq::<Event>::empty());
    }
}

/// With distinct ids, the events about tool `k` in the tools' end-of-tick
/// blocks are exactly its own block, and its tracker is its own result.
proof fn lemma_tools_end_one(tools: Seq<ToolView>, infos: Seq<ToolInfo>, now: u32, n: int, k: int)
    requires
        0 <= k < n <= tools.len(),
        n <= infos.len(),
        distinct_tools(tools),
    ensures
        tool_events_of(tools_end(tools, infos, now, n).1, tools[k].id) == tool_end(tools[k].id, infos[k], now).1,
        tools_end(tools, infos, now, n).0.len() == n,
        tools_end(tools, infos, now, n).0[k] == tool_end(tools[k].id, infos[k], now).0,
    decreases n,
{
    let id = tools[k].id;
    let (done, ev) = tools_end(tools, infos, now, n - 1);
    let (info, more) = tool_end(tools[n - 1].id, infos[n - 1], now);
    lemma_filter_add(ev, more, about_tool(id));
    lemma_tool_end_about(tools[n - 1].id, infos[n - 1], now);
    lemma_filter_all(more, about_tool(id));
    lemma_tools_end_len(tools, infos, now, n - 1);
    if k == n - 1 {
        assert forall|j: int| 0 <= j < n - 1 implies (#[trigger] tools[j]).id != id by {}
        lemma_tools_end_absent(tools, infos, now, n - 1, id);
        assert(Seq::<Event>::empty() + more =~= more);
    } else {
        lemma_tools_end_one(tools, infos, now, n - 1, k);
        assert(tools[n - 1].id != id);
        assert forall|i: int| 0 <= i < more.len() implies !about_tool(id)(#[trigger] more[i]) by {}
        assert(tool_end(id, infos[k], now).1 + Seq::<Event>::empty() =~= tool_end(id, infos[k], now).1);
    }
}

proof fn lemma_tools_end_len(tools: Seq<ToolView>, infos: Seq<ToolInfo>, now: u32, n: int)
    requires
        0 <= n,
    ensures
        tools_end(tools, infos, now, n).0.len() == n,
    decreases n,
{
    if n > 0 {
        lemma_tools_end_len(tools, infos, now, n - 1);
    }
}

proof fn lemma_rings_end_len(pads: Seq<Pad>, infos: Seq<PadInfo>, now: u32, n: int)
    requires
        0 <= n,
    ensures
        rings_end(pads, infos, now, n).0.len() == n,
    decreases n,
{
    if n > 0 {
        lemma_rings_end_len(pads, infos, now, n - 1);
    }
}

/// The rings' end-of-tick blocks hold nothing about a pad that is not among them.
proof fn lemma_rings_end_absent(pads: Seq<Pad>, infos: Seq<PadInfo>, now: u32, n: int, id: DeviceId)
    requires
        0 <= n <= pads.len(),
        n <= infos.len(),
    ensures
        (forall|j: int| 0 <= j < n ==> (#[trigger] pads[j]).id != id) ==> pad_events_of(rings_end(pads, infos, now, n).1, id)
            == Seq::<Event>::empty(),
    decreases n,
{
    reveal_with_fuel(Seq::filter, 1);
    if n <= 0 {
        assert(rings_end(pads, infos, now, n).1 =~= Seq::<Event>::empty());
    } else {
        let (_, ev) = rings_end(pads, infos, now, n - 1);
        let (_, more) = ring_end(pads[n - 1].id, infos[n - 1], now);
        lemma_rings_end_absent(pads, infos, now, n - 1, id);
        lemma_filter_add(ev, more, about_pad(id));
        lemma_ring_end_about(pads[n - 1].id, infos[n - 1], now);
        lemma_filter_all(more, about_pad(id));
        if forall|j: int| 0 <= j < n ==> (#[trigger] pads[j]).id != id {
            assert(pads[n - 1].id != id);
            assert(pad_events_of(ev, id) + Seq::<Event>::empty() =~= Seq::<Event>::empty());
        }
    }
}

/// The tools' end-of-tick blocks hold nothing about a pad.
proof fn lemma_tools_end_no_pad(tools: Seq<ToolView>, infos: Seq<ToolInfo>, now: u32, n: int, id: DeviceId)
    requires
        0 <= n <= tools.len(),
        n <= infos.len(),
    ensures
        pad_events_of(tools_end(tools, infos, now, n).1, id) == Seq::<Event>::empty(),
    decreases n,
{
    reveal_with_fuel(Seq::filter, 1);
    if n <= 0 {
        assert(tools_end(tools, infos, now, n).1 =~= Seq::<Event>::empty());
    } else {
        let (_, ev) = tools_end(tools, infos, now, n - 1);
        let (_, more) = tool_end(tools[n - 1].id, infos[n - 1], now);
        lemma_tools_end_no_pad(tools, infos, now, n - 1, id);
        lemma_filter_add(ev, more, about_pad(id));
        lemma_tool_end_about(tools[n - 1].id, infos[n - 1], now);
        lemma_filter_all(more, about_pad(id));
        assert(pad_events_of(ev, id) + Seq::<Event>::empty() =~= Seq::<Event>::empty());
    }
}

proof fn lemma_rings_end_one(pads: Seq<Pad>, infos: Seq<PadInfo>, now: u32, n: int, k: int)
    requires
        0 <= k < n <= pads.len(),
        n <= infos.len(),
        distinct_pads(pads),
    ensures
        pad_events_of(rings_end(pads, infos, now, n).1, pads[k].id) == ring_end(pads[k].id, infos[k], now).1,
        rings_end(pads, infos, now, n).0[k] == ring_end(pads[k].id, infos[k], now).0,
    decreases n,
{
    let id = pads[k].id;
    let (done, ev) = rings_end(pads, infos, now, n - 1);
    let (info, more) = ring_end(pads[n - 1].id, infos[n - 1], now);
    lemma_filter_add(ev, more, about_pad(id));
    lemma_ring_end_about(pads[n - 1].id, infos[n - 1], now);
    lemma_filter_all(more, about_pad(id));
    lemma_rings_end_len(pads, infos, now, n - 1);
    if k == n - 1 {
        assert forall|j: int| 0 <= j < n - 1 implies (#[trigger] pads[j]).id != id by {}
        lemma_rings_end_absent(pads, infos, now, n - 1, id);
        assert(Seq::<Event>::empty() + more =~= more);
    } else {
        lemma_rings_end_one(pads, infos, now, n - 1, k);
        assert(pads[n - 1].id != id);
        assert forall|i: int| 0 <= i < more.len() implies !about_pad(id)(#[trigger] more[i]) by {}
        assert(ring_end(id, infos[k], now).1 + Seq::<Event>::empty() =~= ring_end(id, infos[k], now).1);
    }
}

/// At the end of a tick each tool gets exactly its own block: the frame
/// closing its pending timestamp, if any, then the `Up`/`Out` of a timeout.
/// Nothing else emitted at the end of the tick concerns it.
pub proof fn lemma_end_tick_per_tool(v: EngineView, k: int)
    requires
        0 <= k < v.registry.tools.len(),
        v.registry.tools.len() == v.registry.tool_infos.len(),
        distinct_tools(v.registry.tools),
    ensures
        ({
            let id = v.registry.tools[k].id;
            let info = v.registry.tool_infos[k];
            let after = end_tick_spec(v);
            &&& tool_events_of(after.events, id) == tool_events_of(v.events, id) + tool_end(id, info, v.server_time).1
            &&& after.registry.tool_infos[k] == tool_end(id, info, v.server_time).0
        }),
{
    let id = v.registry.tools[k].id;
    let n = v.registry.tools.len() as int;
    let (_, pe) = rings_end(v.registry.pads, v.registry.pad_infos, v.server_time, v.registry.pads.len() as int);
    let (_, te) = tools_end(v.registry.tools, v.registry.tool_infos, v.server_time, n);
    lemma_filter_add(v.events + pe, te, about_tool(id));
    lemma_filter_add(v.events, pe, about_tool(id));
    lemma_rings_end_absent_any(v.registry.pads, v.registry.pad_infos, v.server_time, v.registry.pads.len() as int, id);
    lemma_tools_end_one(v.registry.tools, v.registry.tool_infos, v.server_time, n, k);
    assert(tool_events_of(v.events, id) + Seq::<Event>::empty() =~= tool_events_of(v.events, id));
}

/// The rings' blocks hold nothing about a tool, whatever the trackers.
proof fn lemma_rings_end_absent_any(pads: Seq<Pad>, infos: Seq<PadInfo>, now: u32, n: int, tool: DeviceId)
    ensures
        tool_events_of(rings_end(pads, infos, now, n).1, tool) == Seq::<Event>::empty(),
    decreases n,
{
    reveal_with_fuel(Seq::filter, 1);
    if n <= 0 {
        assert(rings_end(pads, infos, now, n).1 =~= Seq::<Event>::empty());
    } else {
        let (_, ev) = rings_end(pads, infos, now, n - 1);
        let (_, more) = ring_end(pads[n - 1].id, infos[n - 1], now);
        lemma_rings_end_absent_any(pads, infos, now, n - 1, tool);
        lemma_filter_add(ev, more, about_tool(tool));
        lemma_ring_end_about(pads[n - 1].id, infos[n - 1], now);
        lemma_filter_all(more, about_tool(tool));
        assert(tool_events_of(ev, tool) + Seq::<Event>::empty() =~= Seq::<Event>::empty());
    }
}

/// At the end of a tick a tool last used at `t` that is in or down emits,
/// after the frame closing its pending timestamp if any, exactly one `Out`
/// (after `Up` if it was down) when the server time has reached `t + 500`,
/// and nothing more before; its phase and last interaction follow.
pub proof fn lemma_end_tick_tool_timeout(v: EngineView, k: int, t: u32)
    requires
        0 <= k < v.registry.tools.len(),
        v.registry.tools.len() == v.registry.tool_infos.len(),
        distinct_tools(v.registry.tools),
        v.registry.tool_infos[k].last_interaction == Some(t),
        v.registry.tool_infos[k].phase != Phase::Out,
    ensures
        ({
            let id = v.registry.tools[k].id;
            let info = v.registry.tool_infos[k];
            let now = v.server_time;
            let after = end_tick_spec(v);
            let frame = match info.frame_pending {
                Some(p) => seq![tool_event(id, ToolEvent::Frame(Some(p)))],
                None => Seq::<Event>::empty(),
            };
            &&& now >= t + TOOL_TIMEOUT_MS ==> {
                &&& tool_events_of(after.events, id) == tool_events_of(v.events, id) + frame + if info.phase == Phase::In {
                    seq![tool_event(id, ToolEvent::Out)]
                } else {
                    seq![tool_event(id, ToolEvent::Up), tool_event(id, ToolEvent::Out)]
                }
                &&& after.registry.tool_infos[k].phase == Phase::Out
                &&& after.registry.tool_infos[k].last_interaction is None
            }
            &&& now < t + TOOL_TIMEOUT_MS ==> {
                &&& tool_events_of(after.events, id) == tool_events_of(v.events, id) + frame
                &&& after.registry.tool_infos[k].phase == info.phase
                &&& after.registry.tool_infos[k].last_interaction == Some(t)
            }
            &&& after.registry.tool_infos[k].frame_pending is None
        }),
{
    let id = v.registry.tools[k].id;
    let info = v.registry.tool_infos[k];
    lemma_end_tick_per_tool(v, k);
    let taken = ToolInfo { frame_pending: None, ..info };
    crate::tracker::lemma_tool_timeout(id, taken, t, v.server_time);
    let frame = match info.frame_pending {
        Some(p) => seq![tool_event(id, ToolEvent::Frame(Some(p)))],
        None => Seq::<Event>::empty(),
    };
    if v.server_time < t + TOOL_TIMEOUT_MS {
        assert(frame + Seq::<Event>::empty() =~= frame);
    }
}

/// At the end of a tick each pad gets exactly its ring's block: one ring
/// `Up` when the ring's last interaction is at least 200 ms old, else
/// nothing. Nothing else emitted at the end of the tick concerns it.
pub proof fn lemma_end_tick_per_pad(v: EngineView, k: int)
    requires
        0 <= k < v.registry.pads.len(),
        v.registry.pads.len() == v.registry.pad_infos.len(),
        v.registry.tools.len() == v.registry.tool_infos.len(),
        distinct_pads(v.registry.pads),
    ensures
        ({
            let id = v.registry.pads[k].id;
            let info = v.registry.pad_infos[k];
            let after = end_tick_spec(v);
            &&& pad_events_of(after.events, id) == pad_events_of(v.events, id) + ring_end(id, info, v.server_time).1
            &&& after.registry.pad_infos[k] == ring_end(id, info, v.server_time).0
            &&& info.ring matches Some(r) ==> r.last_interaction matches Some(t) ==> {
                &&& v.server_time >= t + RING_TIMEOUT_MS ==> ring_end(id, info, v.server_time).1 == seq![
                    ring_event(id, RingEvent::Up),
                ] && after.registry.pad_infos[k].ring == Some(RingInfo { last_interaction: None, ..r })
                &&& v.server_time < t + RING_TIMEOUT_MS ==> ring_end(id, info, v.server_time).1 == Seq::<Event>::empty()
                    && after.registry.pad_infos[k].ring == Some(r)
            }
        }),
{
    let id = v.registry.pads[k].id;
    let n = v.registry.pads.len() as int;
    let (_, pe) = rings_end(v.registry.pads, v.registry.pad_infos, v.server_time, n);
    let (_, te) = tools_end(v.registry.tools, v.registry.tool_infos, v.server_time, v.registry.tools.len() as int);
    lemma_filter_add(v.events + pe, te, about_pad(id));
    lemma_filter_add(v.events, pe, about_pad(id));
    lemma_rings_end_one(v.registry.pads, v.registry.pad_infos, v.server_time, n, k);
    lemma_tools_end_no_pad(v.registry.tools, v.registry.tool_infos, v.server_time, v.registry.tools.len() as int, id);
    assert(pad_events_of(v.events, id) + ring_end(id, v.registry.pad_infos[k], v.server_time).1 + Seq::<Event>::empty()
        =~= pad_events_of(v.events, id) + ring_end(id, v.registry.pad_infos[k], v.server_time).1);
    if let Some(r) = v.registry.pad_infos[k].ring {
        if let Some(t) = r.last_interaction {
            crate::tracker::lemma_ring_timeout(id, r, t, v.server_time);
        }
    }
}

proof fn lemma_position_from(tools: Seq<ToolView>, id: DeviceId, k: int, j: int)
    requires
        0 <= j <= k < tools.len(),
        tools[k].id == id,
        distinct_tools(tools),
    ensures
        tool_position(tools, id, j) == Some(k),
    decreases k - j,
{
    if j < k {
        assert(tools[j].id != tools[k].id);
        lemma_position_from(tools, id, k, j + 1);
    }
}

/// With distinct ids, looking up the raw id of tool `k` finds tool `k`.
pub proof fn lemma_tool_lookup_finds(tools: Seq<ToolView>, k: int, raw: u16, generation: u16)
    requires
        0 <= k < tools.len(),
        distinct_tools(tools),
        raw != 0,
        tools[k].id == (DeviceId::Device { generation, device_id: raw }),
    ensures
        tool_lookup(tools, raw, generation) == Some((tools[k].id, k)),
{
    lemma_position_from(tools, tools[k].id, k, 0);
}

/// Every event of a tool's motion concerns that tool.
proof fn lemma_motion_about(id: DeviceId, info: ToolInfo, time: u32, x: i32, y: i32, mask: Seq<u32>, values: Seq<Fixed>)
    ensures
        forall|i: int| 0 <= i < tool_motion_step(id, info, time, x, y, mask, values).1.len()
            ==> about_tool(id)(#[trigger] tool_motion_step(id, info, time, x, y, mask, values).1[i]),
{
}

/// A motion of tool `k`, found by its raw id, updates only that tool's
/// tracker and appends only that tool's events.
proof fn lemma_motion_of_tool(v: EngineView, k: int, raw: u16, t: u32, x: i32, y: i32, mask: Seq<u32>, values: Seq<Fixed>)
    requires
        0 <= k < v.registry.tools.len(),
        v.registry.tools.len() == v.registry.tool_infos.len(),
        distinct_tools(v.registry.tools),
        raw != 0,
        v.registry.tools[k].id == (DeviceId::Device { generation: v.generation, device_id: raw }),
    ensures
        ({
            let id = v.registry.tools[k].id;
            let (info, ev) = tool_motion_step(id, v.registry.tool_infos[k], t, x, y, mask, values);
            let after = motion_spec(v, raw, t, x, y, mask, values);
            &&& after.registry.tools == v.registry.tools
            &&& after.registry.tool_infos == v.registry.tool_infos.update(k, info)
            &&& after.generation == v.generation
            &&& after.server_time == t
            &&& after.events == v.events + ev
            &&& tool_events_of(after.events, id) == tool_events_of(v.events, id) + ev
        }),
{
    let id = v.registry.tools[k].id;
    lemma_tool_lookup_finds(v.registry.tools, k, raw, v.generation);
    let (info, ev) = tool_motion_step(id, v.registry.tool_infos[k], t, x, y, mask, values);
    lemma_filter_add(v.events, ev, about_tool(id));
    lemma_motion_about(id, v.registry.tool_infos[k], t, x, y, mask, values);
    lemma_filter_all(ev, about_tool(id));
}

/// Two motion events of one tool at the same time `t`, starting with no
/// pending frame, then the end of the tick: the tool's events are its entry
/// (if it was out), the two poses, and a single frame carrying `t`.
pub proof fn lemma_same_time_tick(
    v: EngineView,
    k: int,
    raw: u16,
    t: u32,
    x1: i32,
    y1: i32,
    mask1: Seq<u32>,
    values1: Seq<Fixed>,
    x2: i32,
    y2: i32,
    mask2: Seq<u32>,
    values2: Seq<Fixed>,
)
    requires
        0 <= k < v.registry.tools.len(),
        v.registry.tools.len() == v.registry.tool_infos.len(),
        distinct_tools(v.registry.tools),
        raw != 0,
        v.registry.tools[k].id == (DeviceId::Device { generation: v.generation, device_id: raw }),
        v.registry.tool_infos[k].frame_pending is None,
    ensures
        ({
            let id = v.registry.tools[k].id;
            let info = v.registry.tool_infos[k];
            let first = motion_spec(v, raw, t, x1, y1, mask1, values1);
            let second = motion_spec(first, raw, t, x2, y2, mask2, values2);
            tool_events_of(end_tick_spec(second).events, id) == tool_events_of(v.events, id) + enter_events(id, info) + seq![
                tool_event(id, ToolEvent::Pose(pose_spec(info, x1, y1, mask1, values1))),
                tool_event(id, ToolEvent::Pose(pose_spec(info, x2, y2, mask2, values2))),
                tool_event(id, ToolEvent::Frame(Some(t))),
            ]
        }),
{
    let id = v.registry.tools[k].id;
    let info = v.registry.tool_infos[k];
    let (info1, ev1) = tool_motion_step(id, info, t, x1, y1, mask1, values1);
    let first = motion_spec(v, raw, t, x1, y1, mask1, values1);
    lemma_motion_of_tool(v, k, raw, t, x1, y1, mask1, values1);
    let (info2, ev2) = tool_motion_step(id, info1, t, x2, y2, mask2, values2);
    let second = motion_spec(first, raw, t, x2, y2, mask2, values2);
    lemma_motion_of_tool(first, k, raw, t, x2, y2, mask2, values2);
    lemma_end_tick_per_tool(second, k);
    assert(ev1 =~= enter_events(id, info) + seq![tool_event(id, ToolEvent::Pose(pose_spec(info, x1, y1, mask1, values1)))]);
    assert(ev2 =~= seq![tool_event(id, ToolEvent::Pose(pose_spec(info, x2, y2, mask2, values2)))]);
    assert(tool_end(id, info2, t).1 =~= seq![tool_event(id, ToolEvent::Frame(Some(t)))]);
    assert(tool_events_of(end_tick_spec(second).events, id) =~= tool_events_of(v.events, id) + enter_events(id, info) + seq![
        tool_event(id, ToolEvent::Pose(pose_spec(info, x1, y1, mask1, values1))),
        tool_event(id, ToolEvent::Pose(pose_spec(info, x2, y2, mask2, values2))),
        tool_event(id, ToolEvent::Frame(Some(t))),
    ]);
}

/// Two motion events of one tool at different times `t1` and `t2`, starting
/// with no pending frame, then the end of the tick: the frame carrying `t1`
/// comes between the two poses, and the frame carrying `t2` closes the tick.
pub proof fn lemma_two_times_tick(
    v: EngineView,
    k: int,
    raw: u16,
    t1: u32,
    t2: u32,
    x1: i32,
    y1: i32,
    mask1: Seq<u32>,
    values1: Seq<Fixed>,
    x2: i32,
    y2: i32,
    mask2: Seq<u32>,
    values2: Seq<Fixed>,
)
    requires
        0 <= k < v.registry.tools.len(),
        v.registry.tools.len() == v.registry.tool_infos.len(),
        distinct_tools(v.registry.tools),
        raw != 0,
        v.registry.tools[k].id == (DeviceId::Device { generation: v.generation, device_id: raw }),
        v.registry.tool_infos[k].frame_pending is None,
        t1 != t2,
    ensures
        ({
            let id = v.registry.tools[k].id;
            let info = v.registry.tool_infos[k];
            let first = motion_spec(v, raw, t1, x1, y1, mask1, values1);
            let second = motion_spec(first, raw, t2, x2, y2, mask2, values2);
            tool_events_of(end_tick_spec(second).events, id) == tool_events_of(v.events, id) + enter_events(id, info) + seq![
                tool_event(id, ToolEvent::Pose(pose_spec(info, x1, y1, mask1, values1))),
                tool_event(id, ToolEvent::Frame(Some(t1))),
                tool_event(id, ToolEvent::Pose(pose_spec(info, x2, y2, mask2, values2))),
                tool_event(id, ToolEvent::Frame(Some(t2))),
            ]
        }),
{
    let id = v.registry.tools[k].id;
    let info = v.registry.tool_infos[k];
    let (info1, ev1) = tool_motion_step(id, info, t1, x1, y1, mask1, values1);
    let first = motion_spec(v, raw, t1, x1, y1, mask1, values1);
    lemma_motion_of_tool(v, k, raw, t1, x1, y1, mask1, values1);
    let (info2, ev2) = tool_motion_step(id, info1, t2, x2, y2, mask2, values2);
    let second = motion_spec(first, raw, t2, x2, y2, mask2, values2);
    lemma_motion_of_tool(first, k, raw, t2, x2, y2, mask2, values2);
    lemma_end_tick_per_tool(second, k);
    assert(ev1 =~= enter_events(id, info) + seq![tool_event(id, ToolEvent::Pose(pose_spec(info, x1, y1, mask1, values1)))]);
    assert(ev2 =~= seq![
        tool_event(id, ToolEvent::Frame(Some(t1))),
        tool_event(id, ToolEvent::Pose(pose_spec(info, x2, y2, mask2, values2))),
    ]);
    assert(tool_end(id, info2, t2).1 =~= seq![tool_event(id, ToolEvent::Frame(Some(t2)))]);
    assert(tool_events_of(end_tick_spec(second).events, id) =~= tool_events_of(v.events, id) + enter_events(id, info) + seq![
        tool_event(id, ToolEvent::Pose(pose_spec(info, x1, y1, mask1, values1))),
        tool_event(id, ToolEvent::Frame(Some(t1))),
        tool_event(id, ToolEvent::Pose(pose_spec(info, x2, y2, mask2, values2))),
        tool_event(id, ToolEvent::Frame(Some(t2))),
    ]);
}

/// A well-formed engine meets what the per-device laws ask of its view:
/// one tracker per tool and per pad, and no id given to two tools or two pads.
pub proof fn lemma_wf_gives_distinct(e: &Engine)
    requires
        e.wf(),
    ensures
        distinct_tools(e@.registry.tools),
        distinct_pads(e@.registry.pads),
        e@.registry.tools.len() == e@.registry.tool_infos.len(),
        e@.registry.pads.len() == e@.registry.pad_infos.len(),
{
    assert forall|a: int, b: int| 0 <= a < b < e@.registry.tools.len() implies (#[trigger] e@.registry.tools[a]).id != (
    #[trigger] e@.registry.tools[b]).id by {
        assert(e.registry.tools@[a].id != e.registry.tools@[b].id);
    }
}

} // verus!
