//! Generation-tagged device identities.
use vstd::prelude::*;

verus! {

/// A device's identity within one enumeration epoch, or the synthetic tablet
/// that stands in for tablets the server does not report.
#[derive(Clone, Copy, Debug, PartialEq, Eq, Structural, Hash)]
pub enum DeviceId {
    EmulatedTablet,
    Device {
        /// Bumped each time the device set is rebuilt, so that a reused raw
        /// id never aliases a device of an earlier epoch.
        generation: u16,
        /// The protocol's id; never zero, which the protocol reserves.
        device_id: u16,
    },
}

impl DeviceId {
    pub open spec fn wf(self) -> bool {
        self matches DeviceId::Device { device_id, .. } ==> device_id != 0
    }

    /// The identity of raw device `raw` in epoch `generation`; `None` for the
    /// reserved id zero.
    pub fn make(raw: u16, generation: u16) -> (r: Option<DeviceId>)
        ensures
            r is None <==> raw == 0,
            r matches Some(id) ==> id == (DeviceId::Device { generation, device_id: raw }) && id.wf(),
    {
        if raw == 0 {
            None
        } else {
            Some(DeviceId::Device { generation, device_id: raw })
        }
    }
}

} // verus!
