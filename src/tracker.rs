//! Per-tool and per-ring interaction state: the phase machine, frame
//! coalescing and timeout-driven release.
use vstd::prelude::*;
use crate::events::{Event, PadEvent, RingEvent, ToolEvent};
use crate::fixed::Transform;
use crate::id::DeviceId;

verus! {

/// After this many milliseconds without interaction a ring is released.
pub const RING_TIMEOUT_MS: u32 = 200;

/// After this many milliseconds without interaction a tool leaves proximity.
pub const TOOL_TIMEOUT_MS: u32 = 500;

/// How a tool is interacting.
#[derive(Clone, Copy, Debug, PartialEq, Eq, Structural)]
pub enum Phase {
    /// Hovering, tracked but not engaged.
    In,
    /// Engaged: the tip touches.
    Down,
    /// Not interacting.
    Out,
}

/// Where a valuator sits in a motion event and how its samples are mapped.
#[derive(Clone, Copy, Debug, PartialEq, Eq, Structural)]
pub struct AxisInfo {
    pub index: u16,
    pub transform: Transform,
}

pub open spec fn opt_axis_wf(a: Option<AxisInfo>) -> bool {
    a matches Some(info) ==> info.transform.wf()
}

pub open spec fn tool_event(tool: DeviceId, event: ToolEvent) -> Event {
    Event::Tool { tool, event }
}

/// The atomic events that take a tool from phase `from` to phase `to`, in order.
pub open spec fn phase_events(tool: DeviceId, tablet: DeviceId, from: Phase, to: Phase) -> Seq<Event> {
    let enter = tool_event(tool, ToolEvent::In { tablet });
    let down = tool_event(tool, ToolEvent::Down);
    let up = tool_event(tool, ToolEvent::Up);
    let leave = tool_event(tool, ToolEvent::Out);
    match (from, to) {
        (Phase::Out, Phase::In) => seq![enter],
        (Phase::Out, Phase::Down) => seq![enter, down],
        (Phase::In, Phase::Down) => seq![down],
        (Phase::In, Phase::Out) => seq![leave],
        (Phase::Down, Phase::In) => seq![up],
        (Phase::Down, Phase::Out) => seq![up, leave],
        _ => seq![],
    }
}

/// Whether an interaction at `last` has expired at `now`, `limit` ms later.
pub open spec fn timed_out(last: Option<u32>, now: u32, limit: u32) -> bool {
    last matches Some(t) && t <= now && now - t >= limit
}

/// The frame that closes the events at the pending timestamp, when the
/// events about to come carry another one.
pub open spec fn frame_flush_events(tool: DeviceId, pending: Option<u32>, time: u32) -> Seq<Event> {
    match pending {
        Some(last) => if last != time {
            seq![tool_event(tool, ToolEvent::Frame(Some(last)))]
        } else {
            seq![]
        },
        None => seq![],
    }
}

/// A tool's transforms and interaction state.
#[derive(Clone, Copy, Debug, PartialEq, Eq, Structural)]
pub struct ToolInfo {
    pub pressure: Option<AxisInfo>,
    pub tilt_x: Option<AxisInfo>,
    pub tilt_y: Option<AxisInfo>,
    /// The tablet this tool belongs to, by the name heuristics; reported on `In`.
    pub tablet: DeviceId,
    pub phase: Phase,
    /// The master pointer: the tool is grabbed while it is in the window.
    pub master_pointer: u16,
    /// The master keyboard paired with the master pointer.
    pub master_keyboard: u16,
    pub grabbed: bool,
    /// Timestamp of events emitted and not yet closed by a frame.
    pub frame_pending: Option<u32>,
    pub last_interaction: Option<u32>,
}

impl ToolInfo {
    pub open spec fn wf(self) -> bool {
        &&& opt_axis_wf(self.pressure)
        &&& opt_axis_wf(self.tilt_x)
        &&& opt_axis_wf(self.tilt_y)
        &&& self.tablet.wf()
    }

    /// Clears and reports an interaction that has timed out at `now`.
    pub fn take_timeout(&mut self, now: u32) -> (r: bool)
        ensures
            r == timed_out(old(self).last_interaction, now, TOOL_TIMEOUT_MS),
            *final(self) == (ToolInfo {
                last_interaction: if r { None } else { old(self).last_interaction },
                ..*old(self)
            }),
    {
        let interaction = match self.last_interaction {
            Some(t) => t,
            None => return false,
        };
        if interaction > now {
            return false;
        }
        if now - interaction >= TOOL_TIMEOUT_MS {
            self.last_interaction = None;
            true
        } else {
            false
        }
    }

    /// Moves the tool to `phase`, emitting the atomic events on the way.
    pub fn set_phase(&mut self, self_id: DeviceId, phase: Phase, events: &mut Vec<Event>)
        ensures
            *final(self) == (ToolInfo { phase, ..*old(self) }),
            final(events)@ == old(events)@ + phase_events(self_id, old(self).tablet, old(self).phase, phase),
    {
        let tablet = self.tablet;
        let enter = Event::Tool { tool: self_id, event: ToolEvent::In { tablet } };
        let down = Event::Tool { tool: self_id, event: ToolEvent::Down };
        let up = Event::Tool { tool: self_id, event: ToolEvent::Up };
        let leave = Event::Tool { tool: self_id, event: ToolEvent::Out };
        let ghost before = events@;
        match (self.phase, phase) {
            (Phase::Out, Phase::In) => {
                events.push(enter);
            },
            (Phase::Out, Phase::Down) => {
                events.push(enter);
                events.push(down);
            },
            (Phase::In, Phase::Down) => {
                events.push(down);
            },
            (Phase::In, Phase::Out) => {
                events.push(leave);
            },
            (Phase::Down, Phase::In) => {
                events.push(up);
            },
            (Phase::Down, Phase::Out) => {
                events.push(up);
                events.push(leave);
            },
            _ => {},
        }
        proof {
            assert(events@ =~= before + phase_events(self_id, tablet, self.phase, phase));
        }
        self.phase = phase;
    }

    /// Moves a tool that is out in; no effect on a tool that is in or down.
    pub fn ensure_in(&mut self, self_id: DeviceId, events: &mut Vec<Event>)
        ensures
            *final(self) == (ToolInfo {
                phase: if old(self).phase == Phase::Out { Phase::In } else { old(self).phase },
                ..*old(self)
            }),
            final(events)@ == old(events)@ + (if old(self).phase == Phase::Out {
                phase_events(self_id, old(self).tablet, Phase::Out, Phase::In)
            } else {
                Seq::empty()
            }),
    {
        if self.phase == Phase::Out {
            self.set_phase(self_id, Phase::In, events);
        } else {
            proof {
                assert(events@ =~= events@ + Seq::<Event>::empty());
            }
        }
    }

    /// Marks events at `time` as pending, closing first the events pending at
    /// another timestamp with a frame.
    pub fn flush_frame(&mut self, self_id: DeviceId, time: u32, events: &mut Vec<Event>)
        ensures
            *final(self) == (ToolInfo { frame_pending: Some(time), ..*old(self) }),
            final(events)@ == old(events)@ + frame_flush_events(self_id, old(self).frame_pending, time),
    {
        let ghost before = events@;
        let previous = self.frame_pending;
        self.frame_pending = Some(time);
        if let Some(last) = previous {
            if last != time {
                events.push(Event::Tool { tool: self_id, event: ToolEvent::Frame(Some(last)) });
            }
        }
        proof {
            assert(events@ =~= before + frame_flush_events(self_id, previous, time));
        }
    }

    /// Takes the tool out if its last interaction has timed out at `now`.
    pub fn expire(&mut self, self_id: DeviceId, now: u32, events: &mut Vec<Event>)
        ensures
            timed_out(old(self).last_interaction, now, TOOL_TIMEOUT_MS) ==> *final(self) == (ToolInfo {
                last_interaction: None,
                phase: Phase::Out,
                ..*old(self)
            }),
            !timed_out(old(self).last_interaction, now, TOOL_TIMEOUT_MS) ==> *final(self) == *old(self),
            final(events)@ == old(events)@ + tool_timeout_events(self_id, *old(self), now),
    {
        if self.take_timeout(now) {
            self.set_phase(self_id, Phase::Out, events);
        } else {
            proof {
                assert(events@ =~= events@ + Seq::<Event>::empty());
            }
        }
    }
}

/// What a tool's timeout check emits at `now`.
pub open spec fn tool_timeout_events(tool: DeviceId, info: ToolInfo, now: u32) -> Seq<Event> {
    if timed_out(info.last_interaction, now, TOOL_TIMEOUT_MS) {
        phase_events(tool, info.tablet, info.phase, Phase::Out)
    } else {
        Seq::empty()
    }
}

/// A pad ring's transform and the time of its last interaction.
#[derive(Clone, Copy, Debug, PartialEq, Eq, Structural)]
pub struct RingInfo {
    pub axis: AxisInfo,
    pub last_interaction: Option<u32>,
}

pub open spec fn ring_event(pad: DeviceId, event: RingEvent) -> Event {
    Event::Pad { pad, event: PadEvent::Ring(event) }
}

impl RingInfo {
    /// Clears and reports an interaction that has timed out at `now`; the
    /// caller then emits the ring's release.
    pub fn take_timeout(&mut self, now: u32) -> (r: bool)
        ensures
            r == timed_out(old(self).last_interaction, now, RING_TIMEOUT_MS),
            *final(self) == (RingInfo {
                last_interaction: if r { None } else { old(self).last_interaction },
                ..*old(self)
            }),
    {
        let interaction = match self.last_interaction {
            Some(t) => t,
            None => return false,
        };
        if interaction > now {
            return false;
        }
        if now - interaction >= RING_TIMEOUT_MS {
            self.last_interaction = None;
            true
        } else {
            false
        }
    }

    /// Releases the ring if its last interaction has timed out at `now`.
    pub fn expire(&mut self, pad: DeviceId, now: u32, events: &mut Vec<Event>)
        ensures
            final(self).axis == old(self).axis,
            final(self).last_interaction == if timed_out(old(self).last_interaction, now, RING_TIMEOUT_MS) {
                None
            } else {
                old(self).last_interaction
            },
            final(events)@ == old(events)@ + ring_timeout_events(pad, *old(self), now),
    {
        let ghost before = events@;
        if self.take_timeout(now) {
            events.push(Event::Pad { pad, event: PadEvent::Ring(RingEvent::Up) });
        }
        proof {
            assert(events@ =~= before + ring_timeout_events(pad, *old(self), now));
        }
    }
}

/// A pad's ring, tablet association and grab state.
#[derive(Clone, Copy, Debug, PartialEq, Eq, Structural)]
pub struct PadInfo {
    pub ring: Option<RingInfo>,
    /// The tablet this pad belongs to, by the name heuristics.
    pub tablet: DeviceId,
    pub master_pointer: u16,
    pub master_keyboard: u16,
    pub grabbed: bool,
}

impl PadInfo {
    pub open spec fn wf(self) -> bool {
        &&& self.ring matches Some(r) ==> r.axis.transform.wf()
        &&& self.tablet.wf()
    }
}

/// What a ring's timeout check emits at `now`.
pub open spec fn ring_timeout_events(pad: DeviceId, ring: RingInfo, now: u32) -> Seq<Event> {
    if timed_out(ring.last_interaction, now, RING_TIMEOUT_MS) {
        seq![ring_event(pad, RingEvent::Up)]
    } else {
        Seq::empty()
    }
}

/// The events a run of phase requests emits, starting from phase `start`:
/// each request emits what `set_phase` emits for it.
pub open spec fn requests_events(tool: DeviceId, tablet: DeviceId, start: Phase, requests: Seq<Phase>) -> Seq<Event>
    decreases requests.len(),
{
    if requests.len() == 0 {
        Seq::empty()
    } else {
        phase_events(tool, tablet, start, requests[0]) + requests_events(tool, tablet, requests[0], requests.drop_first())
    }
}

/// The phase after one atomic event, where the event is allowed in phase `p`.
pub open spec fn atomic_step(p: Phase, e: Event) -> Option<Phase> {
    match e {
        Event::Tool { event: ToolEvent::In { .. }, .. } => if p == Phase::Out { Some(Phase::In) } else { None },
        Event::Tool { event: ToolEvent::Down, .. } => if p == Phase::In { Some(Phase::Down) } else { None },
        Event::Tool { event: ToolEvent::Up, .. } => if p == Phase::Down { Some(Phase::In) } else { None },
        Event::Tool { event: ToolEvent::Out, .. } => if p == Phase::In { Some(Phase::Out) } else { None },
        _ => None,
    }
}

/// Plays atomic events from phase `p`; `None` if one is not allowed where it comes.
pub open spec fn replay(p: Phase, events: Seq<Event>) -> Option<Phase>
    decreases events.len(),
{
    if events.len() == 0 {
        Some(p)
    } else {
        match atomic_step(p, events[0]) {
            Some(q) => replay(q, events.drop_first()),
            None => None,
        }
    }
}

proof fn lemma_replay_step(tool: DeviceId, tablet: DeviceId, p: Phase, q: Phase, rest: Seq<Event>)
    ensures
        replay(p, phase_events(tool, tablet, p, q) + rest) == replay(q, rest),
{
    let pe = phase_events(tool, tablet, p, q);
    let s = pe + rest;
    if pe.len() == 0 {
        assert(s =~= rest);
        assert(p == q);
    } else if pe.len() == 1 {
        assert(s[0] == pe[0]);
        assert(s.drop_first() =~= rest);
        assert(atomic_step(p, pe[0]) == Some(q));
        assert(replay(p, s) == replay(q, s.drop_first()));
    } else {
        let s1 = s.drop_first();
        assert(s[0] == pe[0]);
        assert(atomic_step(p, pe[0]) == Some(Phase::In));
        assert(s1[0] == pe[1]);
        assert(s1.drop_first() =~= rest);
        assert(atomic_step(Phase::In, pe[1]) == Some(q));
        assert(replay(Phase::In, s1) == replay(q, s1.drop_first()));
        assert(replay(p, s) == replay(Phase::In, s1));
    }
}

/// Whatever phase a tool starts in and whatever phases are requested, the
/// events emitted form a valid chain of atomic transitions (never `Down`
/// before `In`, never `Up` while not down) that ends in the last phase
/// requested.
pub proof fn lemma_phase_requests_consistent(tool: DeviceId, tablet: DeviceId, start: Phase, requests: Seq<Phase>)
    ensures
        replay(start, requests_events(tool, tablet, start, requests)) == Some(
            if requests.len() == 0 { start } else { requests.last() },
        ),
    decreases requests.len(),
{
    if requests.len() > 0 {
        let rest = requests.drop_first();
        lemma_phase_requests_consistent(tool, tablet, requests[0], rest);
        lemma_replay_step(tool, tablet, start, requests[0], requests_events(tool, tablet, requests[0], rest));
        if rest.len() > 0 {
            assert(rest.last() == requests.last());
        }
    }
}

/// Taking an out tool down emits `In` and then `Down`.
pub proof fn lemma_out_to_down(tool: DeviceId, tablet: DeviceId)
    ensures
        phase_events(tool, tablet, Phase::Out, Phase::Down) == seq![
            tool_event(tool, ToolEvent::In { tablet }),
            tool_event(tool, ToolEvent::Down),
        ],
{
}

/// Requesting the phase a tool is already in emits nothing.
pub proof fn lemma_same_phase_silent(tool: DeviceId, tablet: DeviceId, p: Phase)
    ensures
        phase_events(tool, tablet, p, p) == Seq::<Event>::empty(),
{
}

/// A tool last used at `t` that is in or down leaves with exactly one `Out`
/// (after `Up` if it was down) once `now` reaches `t + 500`, and emits
/// nothing before.
pub proof fn lemma_tool_timeout(tool: DeviceId, info: ToolInfo, t: u32, now: u32)
    requires
        info.last_interaction == Some(t),
        info.phase != Phase::Out,
    ensures
        now >= t + TOOL_TIMEOUT_MS ==> tool_timeout_events(tool, info, now) == if info.phase == Phase::In {
            seq![tool_event(tool, ToolEvent::Out)]
        } else {
            seq![tool_event(tool, ToolEvent::Up), tool_event(tool, ToolEvent::Out)]
        },
        now < t + TOOL_TIMEOUT_MS ==> tool_timeout_events(tool, info, now) == Seq::<Event>::empty(),
{
}

/// A ring last used at `t` is released with one `Up` once `now` reaches
/// `t + 200`, and emits nothing before.
pub proof fn lemma_ring_timeout(pad: DeviceId, ring: RingInfo, t: u32, now: u32)
    requires
        ring.last_interaction == Some(t),
    ensures
        now >= t + RING_TIMEOUT_MS ==> ring_timeout_events(pad, ring, now) == seq![ring_event(pad, RingEvent::Up)],
        now < t + RING_TIMEOUT_MS ==> ring_timeout_events(pad, ring, now) == Seq::<Event>::empty(),
{
}

} // verus!
