//! The events this library emits.
use vstd::prelude::*;
use crate::fixed::Scaled;
use crate::id::DeviceId;

verus! {

/// A tool's position and axis readings.
#[derive(Clone, Copy, Debug, PartialEq, Eq, Structural)]
pub struct Pose {
    /// Event-local coordinates, 16.16 fixed point.
    pub x: i32,
    pub y: i32,
    pub pressure: Option<Scaled>,
    /// Tilt; an axis that did not report reads zero.
    pub tilt: Option<Tilt>,
}

/// Tilt along x and y.
#[derive(Clone, Copy, Debug, PartialEq, Eq, Structural)]
pub struct Tilt {
    pub x: Scaled,
    pub y: Scaled,
}

#[derive(Clone, Copy, Debug, PartialEq, Eq, Structural)]
pub enum ToolEvent {
    In { tablet: DeviceId },
    Down,
    Up,
    Out,
    Pose(Pose),
    Button { button_id: u16, pressed: bool },
    /// Closes the events of one timestamp, in milliseconds.
    Frame(Option<u32>),
}

#[derive(Clone, Copy, Debug, PartialEq, Eq, Structural)]
pub enum RingEvent {
    /// The ring's angle.
    Pose(Scaled),
    Up,
    Frame(Option<u32>),
}

#[derive(Clone, Copy, Debug, PartialEq, Eq, Structural)]
pub enum PadEvent {
    Enter { tablet: DeviceId },
    /// A button, indexed from zero.
    Button { button_idx: u16, pressed: bool },
    /// An event of the pad's single ring, in its single group.
    Ring(RingEvent),
}

#[derive(Clone, Copy, Debug, PartialEq, Eq, Structural)]
pub enum Event {
    Tool { tool: DeviceId, event: ToolEvent },
    Pad { pad: DeviceId, event: PadEvent },
}

} // verus!
