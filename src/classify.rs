//! Device classification: joins the two device descriptions, decides which
//! devices are tools, pads and tablets, and builds their records and
//! trackers.
use vstd::prelude::*;
use vstd::utf8::valid_utf8;
use crate::bytes::{copy_range, matches_at, strip_suffix};
use crate::fixed::{degree_transform, fixed_units, range_transform, Transform, Unit};
use crate::id::DeviceId;
use crate::names::{
    device_type_spec, lit, opt_bytes_view, pad_tablet_spec, parse_tool_name, tool_name_spec, valuator_axis_spec,
    xwayland_type_from_name, xwayland_type_spec, DeviceType, DeviceTypeOrXwayland, ToolType,
    ValuatorAxis,
};
use crate::snapshot::{is_utf8, ClassInfo, DeviceUse, ListedDevice, QueriedDevice, UsbId};
use crate::tracker::{AxisInfo, PadInfo, Phase, RingInfo, ToolInfo};

verus! {

/// The angular range of a tool's tilt axes, in units of 2^-32 degree.
#[derive(Clone, Copy, Debug, PartialEq, Eq, Structural)]
pub struct TiltLimits {
    pub min: i128,
    pub max: i128,
}

/// A stylus or eraser.
#[derive(Clone, Debug)]
pub struct Tool {
    pub id: DeviceId,
    /// The device name without its serial, when the name is UTF-8.
    pub name: Option<Vec<u8>>,
    pub hardware_id: Option<u64>,
    pub tool_type: ToolType,
    /// Whether the tool reports pressure.
    pub pressure: bool,
    /// The union of the ranges of its tilt axes, when it has any.
    pub tilt: Option<TiltLimits>,
}

pub struct ToolView {
    pub id: DeviceId,
    pub name: Option<Seq<u8>>,
    pub hardware_id: Option<u64>,
    pub tool_type: ToolType,
    pub pressure: bool,
    pub tilt: Option<TiltLimits>,
}

impl View for Tool {
    type V = ToolView;

    open spec fn view(&self) -> ToolView {
        ToolView {
            id: self.id,
            name: opt_bytes_view(self.name),
            hardware_id: self.hardware_id,
            tool_type: self.tool_type,
            pressure: self.pressure,
            tilt: self.tilt,
        }
    }
}

/// A pad: its buttons and whether it has a ring.
#[derive(Clone, Copy, Debug, PartialEq, Eq, Structural)]
pub struct Pad {
    pub id: DeviceId,
    pub total_buttons: u16,
    pub has_ring: bool,
}

/// A tablet, possibly the emulated one.
#[derive(Clone, Debug)]
pub struct Tablet {
    pub id: DeviceId,
    pub name: Option<Vec<u8>>,
    pub usb_id: Option<UsbId>,
}

pub struct TabletView {
    pub id: DeviceId,
    pub name: Option<Seq<u8>>,
    pub usb_id: Option<UsbId>,
}

impl View for Tablet {
    type V = TabletView;

    open spec fn view(&self) -> TabletView {
        TabletView { id: self.id, name: opt_bytes_view(self.name), usb_id: self.usb_id }
    }
}

/// The tablet that tools and pads fall back to.
pub open spec fn emulated_tablet() -> TabletView {
    TabletView { id: DeviceId::EmulatedTablet, name: Some(lit("octotablet emulated")), usb_id: None }
}

/// Index of the first device at or after `start` whose id is `id`.
pub open spec fn first_query(queries: Seq<QueriedDevice>, id: u16, start: int) -> Option<int>
    decreases queries.len() - start,
{
    if start < 0 || start >= queries.len() {
        None
    } else if queries[start].device_id == id {
        Some(start)
    } else {
        first_query(queries, id, start + 1)
    }
}

/// Index of the first device at or after `start` whose name is `name`.
pub open spec fn first_named(queries: Seq<QueriedDevice>, name: Seq<u8>, start: int) -> Option<int>
    decreases queries.len() - start,
{
    if start < 0 || start >= queries.len() {
        None
    } else if queries[start].name@ == name {
        Some(start)
    } else {
        first_named(queries, name, start + 1)
    }
}

/// The master paired with master `master`, or zero when it is not listed.
pub open spec fn attached_master(queries: Seq<QueriedDevice>, master: u16) -> u16 {
    match first_query(queries, master, 0) {
        Some(i) => queries[i].attachment,
        None => 0,
    }
}

/// The first device named `expected`, as the tablet to associate with; the
/// emulated tablet when there is none.
pub open spec fn associate(queries: Seq<QueriedDevice>, expected: Option<Seq<u8>>, generation: u16) -> DeviceId {
    match expected {
        Some(name) => match first_named(queries, name, 0) {
            Some(i) => if queries[i].device_id != 0 {
                DeviceId::Device { generation, device_id: queries[i].device_id }
            } else {
                DeviceId::EmulatedTablet
            },
            None => DeviceId::EmulatedTablet,
        },
        None => DeviceId::EmulatedTablet,
    }
}

pub open spec fn label_axis(label: Option<Vec<u8>>) -> Option<ValuatorAxis> {
    match label {
        Some(l) => valuator_axis_spec(l@),
        None => None,
    }
}

/// The axes found on a tool so far.
#[derive(Clone, Copy, Debug, PartialEq, Eq, Structural)]
pub struct ToolAxes {
    pub pressure: Option<AxisInfo>,
    pub tilt_x: Option<AxisInfo>,
    pub tilt_y: Option<AxisInfo>,
    pub tilt: Option<TiltLimits>,
}

pub open spec fn union_limits(a: Option<TiltLimits>, min: int, max: int) -> Option<TiltLimits> {
    match a {
        None => Some(TiltLimits { min: min as i128, max: max as i128 }),
        Some(l) => Some(
            TiltLimits {
                min: if l.min <= min { l.min } else { min as i128 },
                max: if l.max >= max { l.max } else { max as i128 },
            },
        ),
    }
}

/// Whether a class is an absolute valuator with a proper range and the given label.
pub open spec fn usable_valuator(c: ClassInfo, axis: ValuatorAxis) -> bool {
    c matches ClassInfo::Valuator(v) && v.absolute && fixed_units(v.min) != fixed_units(v.max)
        && label_axis(v.label) == Some(axis)
}

pub open spec fn tool_axes_step(acc: ToolAxes, c: ClassInfo) -> ToolAxes {
    match c {
        ClassInfo::Valuator(v) => if usable_valuator(c, ValuatorAxis::AbsPressure) {
            ToolAxes {
                pressure: Some(AxisInfo { index: v.number, transform: range_transform(v.min, v.max, Unit::One) }),
                ..acc
            }
        } else if usable_valuator(c, ValuatorAxis::AbsTiltX) {
            ToolAxes {
                tilt_x: Some(AxisInfo { index: v.number, transform: degree_transform() }),
                tilt: union_limits(acc.tilt, fixed_units(v.min), fixed_units(v.max)),
                ..acc
            }
        } else if usable_valuator(c, ValuatorAxis::AbsTiltY) {
            ToolAxes {
                tilt_y: Some(AxisInfo { index: v.number, transform: degree_transform() }),
                tilt: union_limits(acc.tilt, fixed_units(v.min), fixed_units(v.max)),
                ..acc
            }
        } else {
            acc
        },
        _ => acc,
    }
}

pub open spec fn no_tool_axes() -> ToolAxes {
    ToolAxes { pressure: None, tilt_x: None, tilt_y: None, tilt: None }
}

/// The pressure and tilt axes among a tool's classes; a later class of the
/// same label replaces an earlier one.
pub open spec fn scan_tool_axes(cs: Seq<ClassInfo>) -> ToolAxes
    decreases cs.len(),
{
    if cs.len() == 0 {
        no_tool_axes()
    } else {
        tool_axes_step(scan_tool_axes(cs.drop_last()), cs.last())
    }
}

/// The buttons and ring found on a pad so far.
#[derive(Clone, Copy, Debug, PartialEq, Eq, Structural)]
pub struct PadAxes {
    pub buttons: u16,
    pub ring: Option<AxisInfo>,
}

pub open spec fn pad_axes_step(acc: PadAxes, c: ClassInfo) -> PadAxes {
    match c {
        ClassInfo::Button { num_buttons } => PadAxes { buttons: num_buttons, ..acc },
        ClassInfo::Valuator(v) => if usable_valuator(c, ValuatorAxis::AbsWheel) {
            PadAxes {
                ring: Some(AxisInfo { index: v.number, transform: range_transform(v.min, v.max, Unit::Turn) }),
                ..acc
            }
        } else {
            acc
        },
        ClassInfo::Other => acc,
    }
}

/// The button count and the wheel-labelled ring among a pad's classes.
pub open spec fn scan_pad_axes(cs: Seq<ClassInfo>) -> PadAxes
    decreases cs.len(),
{
    if cs.len() == 0 {
        PadAxes { buttons: 0, ring: None }
    } else {
        pad_axes_step(scan_pad_axes(cs.drop_last()), cs.last())
    }
}

/// The role a listed device's type label gives it, reading the name for the
/// generic xwayland pointer.
pub open spec fn device_role(d: ListedDevice) -> Option<DeviceType> {
    match d.type_label {
        None => None,
        Some(label) => match device_type_spec(label@) {
            Some(DeviceTypeOrXwayland::Type(t)) => Some(t),
            Some(DeviceTypeOrXwayland::Xwayland) => if valid_utf8(d.name@) {
                xwayland_type_spec(d.name@)
            } else {
                None
            },
            None => None,
        },
    }
}

pub open spec fn tool_view_spec(d: ListedDevice, q: QueriedDevice, generation: u16, ty: ToolType) -> ToolView {
    let named = valid_utf8(d.name@);
    let parsed = tool_name_spec(d.name@);
    let axes = scan_tool_axes(q.classes@);
    ToolView {
        id: DeviceId::Device { generation, device_id: d.device_id },
        name: if named { Some(parsed.human_readable) } else { None },
        hardware_id: if named { parsed.id } else { None },
        tool_type: ty,
        pressure: axes.pressure is Some,
        tilt: axes.tilt,
    }
}

pub open spec fn tool_info_spec(d: ListedDevice, q: QueriedDevice, queries: Seq<QueriedDevice>, generation: u16) -> ToolInfo {
    let axes = scan_tool_axes(q.classes@);
    ToolInfo {
        pressure: axes.pressure,
        tilt_x: axes.tilt_x,
        tilt_y: axes.tilt_y,
        tablet: if valid_utf8(d.name@) {
            associate(queries, tool_name_spec(d.name@).maybe_associated_tablet, generation)
        } else {
            DeviceId::EmulatedTablet
        },
        phase: Phase::Out,
        master_pointer: q.attachment,
        master_keyboard: attached_master(queries, q.attachment),
        grabbed: false,
        frame_pending: None,
        last_interaction: None,
    }
}

pub open spec fn pad_info_spec(d: ListedDevice, q: QueriedDevice, queries: Seq<QueriedDevice>, generation: u16) -> PadInfo {
    let axes = scan_pad_axes(q.classes@);
    let primary = q.attachment;
    let other = attached_master(queries, primary);
    let keyboard = q.device_use == DeviceUse::MasterKeyboard || q.device_use == DeviceUse::SlaveKeyboard;
    PadInfo {
        ring: match axes.ring {
            Some(axis) => Some(RingInfo { axis, last_interaction: None }),
            None => None,
        },
        tablet: if valid_utf8(d.name@) {
            associate(queries, pad_tablet_spec(d.name@), generation)
        } else {
            DeviceId::EmulatedTablet
        },
        master_pointer: if keyboard { primary } else { other },
        master_keyboard: if keyboard { other } else { primary },
        grabbed: false,
    }
}

/// What one listed device contributes.
pub enum Classified {
    Tool(ToolView, ToolInfo),
    Pad(Pad, PadInfo),
    Tablet(TabletView),
    Skip,
}

/// Classifies a listed device against the per-class query. A device missing
/// from the query, with the reserved id, or of no known role is skipped; a
/// tool must be a slave pointer; a pad must not float and must have a button
/// or a ring.
pub open spec fn classify_device(d: ListedDevice, queries: Seq<QueriedDevice>, generation: u16) -> Classified {
    match first_query(queries, d.device_id, 0) {
        None => Classified::Skip,
        Some(qi) => {
            let q = queries[qi];
            let id = DeviceId::Device { generation, device_id: d.device_id };
            if d.device_id == 0 {
                Classified::Skip
            } else {
                match device_role(d) {
                    None => Classified::Skip,
                    Some(DeviceType::Tool(ty)) => if q.device_use == DeviceUse::SlavePointer {
                        Classified::Tool(tool_view_spec(d, q, generation, ty), tool_info_spec(d, q, queries, generation))
                    } else {
                        Classified::Skip
                    },
                    Some(DeviceType::Pad) => {
                        let axes = scan_pad_axes(q.classes@);
                        if q.device_use == DeviceUse::FloatingSlave || (axes.buttons == 0 && axes.ring is None) {
                            Classified::Skip
                        } else {
                            Classified::Pad(
                                Pad { id, total_buttons: axes.buttons, has_ring: axes.ring is Some },
                                pad_info_spec(d, q, queries, generation),
                            )
                        }
                    },
                    Some(DeviceType::Tablet) => Classified::Tablet(
                        TabletView {
                            id,
                            name: if valid_utf8(d.name@) { Some(d.name@) } else { None },
                            usb_id: None,
                        },
                    ),
                }
            }
        },
    }
}

pub struct RegistryView {
    pub tools: Seq<ToolView>,
    pub tool_infos: Seq<ToolInfo>,
    pub pads: Seq<Pad>,
    pub pad_infos: Seq<PadInfo>,
    pub tablets: Seq<TabletView>,
}

pub open spec fn empty_registry() -> RegistryView {
    RegistryView {
        tools: Seq::empty(),
        tool_infos: Seq::empty(),
        pads: Seq::empty(),
        pad_infos: Seq::empty(),
        tablets: Seq::empty(),
    }
}

/// Whether some device among `listed` has raw id `id`.
pub open spec fn listed_before(listed: Seq<ListedDevice>, id: u16) -> bool {
    exists|j: int| 0 <= j < listed.len() && #[trigger] listed[j].device_id == id
}

/// The records of the listed devices, in list order, before tablet
/// associations are checked. A raw id listed a second time is skipped, so
/// that no id is given out twice within an epoch.
pub open spec fn collect(listed: Seq<ListedDevice>, queries: Seq<QueriedDevice>, generation: u16) -> RegistryView
    decreases listed.len(),
{
    if listed.len() == 0 {
        empty_registry()
    } else {
        let acc = collect(listed.drop_last(), queries, generation);
        if listed_before(listed.drop_last(), listed.last().device_id) {
            acc
        } else {
            match classify_device(listed.last(), queries, generation) {
                Classified::Tool(t, i) => RegistryView { tools: acc.tools.push(t), tool_infos: acc.tool_infos.push(i), ..acc },
                Classified::Pad(p, i) => RegistryView { pads: acc.pads.push(p), pad_infos: acc.pad_infos.push(i), ..acc },
                Classified::Tablet(t) => RegistryView { tablets: acc.tablets.push(t), ..acc },
                Classified::Skip => acc,
            }
        }
    }
}

pub open spec fn has_tablet(tablets: Seq<TabletView>, id: DeviceId) -> bool {
    exists|i: int| 0 <= i < tablets.len() && #[trigger] tablets[i].id == id
}

/// An association that names no listed tablet falls back to the emulated tablet.
pub open spec fn resolve_tablet(tablets: Seq<TabletView>, id: DeviceId) -> DeviceId {
    if id is Device && !has_tablet(tablets, id) {
        DeviceId::EmulatedTablet
    } else {
        id
    }
}

pub open spec fn needs_emulated(tool_infos: Seq<ToolInfo>, pad_infos: Seq<PadInfo>) -> bool {
    (exists|i: int| 0 <= i < tool_infos.len() && #[trigger] tool_infos[i].tablet == DeviceId::EmulatedTablet)
    || (exists|i: int| 0 <= i < pad_infos.len() && #[trigger] pad_infos[i].tablet == DeviceId::EmulatedTablet)
}

/// The registry that a classification pass builds: the collected records,
/// associations resolved against the tablets found, and the emulated tablet
/// appended when some tool or pad falls back to it.
pub open spec fn registry_spec(listed: Seq<ListedDevice>, queries: Seq<QueriedDevice>, generation: u16) -> RegistryView {
    let c = collect(listed, queries, generation);
    let tool_infos = c.tool_infos.map_values(|i: ToolInfo| ToolInfo { tablet: resolve_tablet(c.tablets, i.tablet), ..i });
    let pad_infos = c.pad_infos.map_values(|p: PadInfo| PadInfo { tablet: resolve_tablet(c.tablets, p.tablet), ..p });
    RegistryView {
        tools: c.tools,
        tool_infos,
        pads: c.pads,
        pad_infos,
        tablets: if needs_emulated(tool_infos, pad_infos) {
            c.tablets.push(emulated_tablet())
        } else {
            c.tablets
        },
    }
}

pub open spec fn as_index(r: Option<usize>) -> Option<int> {
    match r {
        Some(i) => Some(i as int),
        None => None,
    }
}

/// Index of the first queried device with id `id`.
pub fn find_query(queries: &Vec<QueriedDevice>, id: u16) -> (r: Option<usize>)
    ensures
        as_index(r) == first_query(queries@, id, 0),
        r matches Some(i) ==> i < queries@.len(),
{
    let mut i: usize = 0;
    while i < queries.len()
        invariant
            i <= queries@.len(),
            first_query(queries@, id, 0) == first_query(queries@, id, i as int),
        decreases queries@.len() - i,
    {
        if queries[i].device_id == id {
            return Some(i);
        }
        i = i + 1;
    }
    None
}

/// Whether `name` is `prefix` followed by `suffix`.
pub fn name_matches(name: &[u8], prefix: &[u8], suffix: &[u8]) -> (r: bool)
    ensures
        r == (name@ == prefix@ + suffix@),
{
    let n = name.len();
    if n < suffix.len() {
        proof {
            assert((prefix@ + suffix@).len() >= suffix@.len());
        }
        return false;
    }
    let k = n - suffix.len();
    if k != prefix.len() {
        return false;
    }
    let head = matches_at(name, 0, prefix);
    let tail = matches_at(name, k, suffix);
    proof {
        if head && tail {
            assert(name@ =~= prefix@ + suffix@);
        }
        if name@ == prefix@ + suffix@ {
            assert(name@.subrange(0, k as int) =~= prefix@);
            assert(name@.subrange(k as int, n as int) =~= suffix@);
        }
    }
    head && tail
}

/// The tablet named `prefix` followed by `suffix`, as `associate` picks it.
pub fn find_tablet(queries: &Vec<QueriedDevice>, prefix: &[u8], suffix: &[u8], generation: u16) -> (r: DeviceId)
    ensures
        r == associate(queries@, Some(prefix@ + suffix@), generation),
        r.wf(),
{
    let ghost name = prefix@ + suffix@;
    let mut i: usize = 0;
    while i < queries.len()
        invariant
            i <= queries@.len(),
            name == prefix@ + suffix@,
            first_named(queries@, name, 0) == first_named(queries@, name, i as int),
        decreases queries@.len() - i,
    {
        let q = &queries[i];
        let found = name_matches(q.name.as_slice(), prefix, suffix);
        if found {
            return match DeviceId::make(queries[i].device_id, generation) {
                Some(id) => id,
                None => DeviceId::EmulatedTablet,
            };
        }
        i = i + 1;
    }
    DeviceId::EmulatedTablet
}

/// The master paired with master `master`, or zero.
pub fn find_attached_master(queries: &Vec<QueriedDevice>, master: u16) -> (r: u16)
    ensures
        r == attached_master(queries@, master),
{
    match find_query(queries, master) {
        Some(i) => queries[i].attachment,
        None => 0,
    }
}

fn label_axis_of(label: &Option<Vec<u8>>) -> (r: Option<ValuatorAxis>)
    ensures
        r == label_axis(*label),
{
    match label {
        Some(l) => ValuatorAxis::from_label(l.as_slice()),
        None => None,
    }
}

fn union_tilt(a: Option<TiltLimits>, lo: i128, hi: i128) -> (r: TiltLimits)
    ensures
        union_limits(a, lo as int, hi as int) == Some(r),
{
    match a {
        None => TiltLimits { min: lo, max: hi },
        Some(l) => TiltLimits {
            min: if l.min <= lo { l.min } else { lo },
            max: if l.max >= hi { l.max } else { hi },
        },
    }
}

pub open spec fn tool_axes_wf(a: ToolAxes) -> bool {
    &&& crate::tracker::opt_axis_wf(a.pressure)
    &&& crate::tracker::opt_axis_wf(a.tilt_x)
    &&& crate::tracker::opt_axis_wf(a.tilt_y)
}

/// Finds the pressure and tilt axes of a tool.
pub fn find_tool_axes(classes: &Vec<ClassInfo>) -> (r: ToolAxes)
    ensures
        r == scan_tool_axes(classes@),
        tool_axes_wf(r),
{
    let mut acc = ToolAxes { pressure: None, tilt_x: None, tilt_y: None, tilt: None };
    let mut i: usize = 0;
    proof {
        assert(classes@.subrange(0, 0) =~= Seq::<ClassInfo>::empty());
    }
    while i < classes.len()
        invariant
            i <= classes@.len(),
            acc == scan_tool_axes(classes@.subrange(0, i as int)),
            tool_axes_wf(acc),
        decreases classes@.len() - i,
    {
        proof {
            assert(classes@.subrange(0, i + 1).drop_last() =~= classes@.subrange(0, i as int));
        }
        match &classes[i] {
            ClassInfo::Valuator(v) => {
                let axis = if v.absolute { label_axis_of(&v.label) } else { None };
                let lo = v.min.units();
                let hi = v.max.units();
                if lo != hi {
                    match axis {
                        Some(ValuatorAxis::AbsPressure) => {
                            if let Some(t) = Transform::normalized(v.min, v.max) {
                                acc.pressure = Some(AxisInfo { index: v.number, transform: t });
                            }
                        },
                        Some(ValuatorAxis::AbsTiltX) => {
                            acc.tilt_x = Some(AxisInfo { index: v.number, transform: Transform::degrees() });
                            acc.tilt = Some(union_tilt(acc.tilt, lo, hi));
                        },
                        Some(ValuatorAxis::AbsTiltY) => {
                            acc.tilt_y = Some(AxisInfo { index: v.number, transform: Transform::degrees() });
                            acc.tilt = Some(union_tilt(acc.tilt, lo, hi));
                        },
                        _ => {},
                    }
                }
            },
            _ => {},
        }
        i = i + 1;
    }
    proof {
        assert(classes@.subrange(0, i as int) =~= classes@);
    }
    acc
}

pub open spec fn pad_axes_wf(a: PadAxes) -> bool {
    crate::tracker::opt_axis_wf(a.ring)
}

/// Finds the button count and the ring of a pad.
pub fn find_pad_axes(classes: &Vec<ClassInfo>) -> (r: PadAxes)
    ensures
        r == scan_pad_axes(classes@),
        pad_axes_wf(r),
{
    let mut acc = PadAxes { buttons: 0, ring: None };
    let mut i: usize = 0;
    proof {
        assert(classes@.subrange(0, 0) =~= Seq::<ClassInfo>::empty());
    }
    while i < classes.len()
        invariant
            i <= classes@.len(),
            acc == scan_pad_axes(classes@.subrange(0, i as int)),
            pad_axes_wf(acc),
        decreases classes@.len() - i,
    {
        proof {
            assert(classes@.subrange(0, i + 1).drop_last() =~= classes@.subrange(0, i as int));
        }
        match &classes[i] {
            ClassInfo::Button { num_buttons } => {
                acc.buttons = *num_buttons;
            },
            ClassInfo::Valuator(v) => {
                let axis = if v.absolute { label_axis_of(&v.label) } else { None };
                if let Some(ValuatorAxis::AbsWheel) = axis {
                    if let Some(t) = Transform::turn(v.min, v.max) {
                        acc.ring = Some(AxisInfo { index: v.number, transform: t });
                    }
                }
            },
            ClassInfo::Other => {},
        }
        i = i + 1;
    }
    proof {
        assert(classes@.subrange(0, i as int) =~= classes@);
    }
    acc
}

/// The role of a listed device; `named` tells whether its name is UTF-8.
fn find_device_role(d: &ListedDevice, named: bool) -> (r: Option<DeviceType>)
    requires
        named == valid_utf8(d.name@),
    ensures
        r == device_role(*d),
{
    match &d.type_label {
        None => None,
        Some(label) => match DeviceTypeOrXwayland::from_label(label.as_slice()) {
            Some(DeviceTypeOrXwayland::Type(t)) => Some(t),
            Some(DeviceTypeOrXwayland::Xwayland) => if named {
                xwayland_type_from_name(d.name.as_slice())
            } else {
                None
            },
            None => None,
        },
    }
}

/// What one listed device contributes.
pub enum ClassifiedDevice {
    Tool(Tool, ToolInfo),
    Pad(Pad, PadInfo),
    Tablet(Tablet),
    Skip,
}

impl View for ClassifiedDevice {
    type V = Classified;

    open spec fn view(&self) -> Classified {
        match self {
            ClassifiedDevice::Tool(t, i) => Classified::Tool(t@, *i),
            ClassifiedDevice::Pad(p, i) => Classified::Pad(*p, *i),
            ClassifiedDevice::Tablet(t) => Classified::Tablet(t@),
            ClassifiedDevice::Skip => Classified::Skip,
        }
    }
}

pub open spec fn classified_wf(c: Classified) -> bool {
    match c {
        Classified::Tool(t, i) => i.wf() && t.id.wf(),
        Classified::Pad(p, i) => i.wf() && p.id.wf(),
        Classified::Tablet(t) => t.id.wf(),
        Classified::Skip => true,
    }
}

fn copy_bytes(v: &Vec<u8>) -> (r: Vec<u8>)
    ensures
        r@ == v@,
{
    let r = copy_range(v.as_slice(), 0, v.len());
    proof {
        assert(v@.subrange(0, v@.len() as int) =~= v@);
    }
    r
}

/// Classifies one listed device against the per-class query.
pub fn classify_one(d: &ListedDevice, queries: &Vec<QueriedDevice>, generation: u16) -> (r: ClassifiedDevice)
    ensures
        r@ == classify_device(*d, queries@, generation),
        classified_wf(r@),
{
    let qi = match find_query(queries, d.device_id) {
        Some(qi) => qi,
        None => return ClassifiedDevice::Skip,
    };
    let q = &queries[qi];
    if d.device_id == 0 {
        return ClassifiedDevice::Skip;
    }
    let id = DeviceId::Device { generation, device_id: d.device_id };
    let named = is_utf8(d.name.as_slice());
    let role = match find_device_role(d, named) {
        Some(role) => role,
        None => return ClassifiedDevice::Skip,
    };
    match role {
        DeviceType::Tool(ty) => {
            if q.device_use != DeviceUse::SlavePointer {
                return ClassifiedDevice::Skip;
            }
            let axes = find_tool_axes(&q.classes);
            let (name, hardware_id, tablet) = if named {
                let parsed = parse_tool_name(d.name.as_slice());
                let tablet = match &parsed.maybe_associated_tablet {
                    Some(expected) => {
                        let nothing: Vec<u8> = Vec::new();
                        proof {
                            assert(expected@ + nothing@ =~= expected@);
                        }
                        find_tablet(queries, expected.as_slice(), nothing.as_slice(), generation)
                    },
                    None => DeviceId::EmulatedTablet,
                };
                (Some(parsed.human_readable), parsed.id, tablet)
            } else {
                (None, None, DeviceId::EmulatedTablet)
            };
            let tool = Tool {
                id,
                name,
                hardware_id,
                tool_type: ty,
                pressure: axes.pressure.is_some(),
                tilt: axes.tilt,
            };
            let info = ToolInfo {
                pressure: axes.pressure,
                tilt_x: axes.tilt_x,
                tilt_y: axes.tilt_y,
                tablet,
                phase: Phase::Out,
                master_pointer: q.attachment,
                master_keyboard: find_attached_master(queries, q.attachment),
                grabbed: false,
                frame_pending: None,
                last_interaction: None,
            };
            ClassifiedDevice::Tool(tool, info)
        },
        DeviceType::Pad => {
            if q.device_use == DeviceUse::FloatingSlave {
                return ClassifiedDevice::Skip;
            }
            let axes = find_pad_axes(&q.classes);
            if axes.buttons == 0 && axes.ring.is_none() {
                return ClassifiedDevice::Skip;
            }
            let primary = q.attachment;
            let other = find_attached_master(queries, primary);
            let keyboard = q.device_use == DeviceUse::MasterKeyboard || q.device_use == DeviceUse::SlaveKeyboard;
            let tablet = if named {
                match strip_suffix(d.name.as_slice(), " Pad".as_bytes()) {
                    Some(prefix) => find_tablet(queries, prefix.as_slice(), " Pen".as_bytes(), generation),
                    None => DeviceId::EmulatedTablet,
                }
            } else {
                DeviceId::EmulatedTablet
            };
            let ring = match axes.ring {
                Some(axis) => Some(RingInfo { axis, last_interaction: None }),
                None => None,
            };
            let pad = Pad { id, total_buttons: axes.buttons, has_ring: axes.ring.is_some() };
            let info = PadInfo {
                ring,
                tablet,
                master_pointer: if keyboard { primary } else { other },
                master_keyboard: if keyboard { other } else { primary },
                grabbed: false,
            };
            ClassifiedDevice::Pad(pad, info)
        },
        DeviceType::Tablet => {
            let name = if named { Some(copy_bytes(&d.name)) } else { None };
            ClassifiedDevice::Tablet(Tablet { id, name, usb_id: None })
        },
    }
}

/// Which events to ask the server for, per device.
#[derive(Clone, Copy, Debug, PartialEq, Eq, Structural)]
pub enum Interest {
    /// Buttons, motion, crossing, focus and capability changes of a tool.
    Tool(u16),
    /// Buttons, motion and capability changes of a pad.
    Pad(u16),
    /// Crossing and focus of every master device.
    AllMasters,
}

/// The protocol id of a device; zero for the emulated tablet, which has none.
pub open spec fn raw_id(id: DeviceId) -> u16 {
    match id {
        DeviceId::Device { device_id, .. } => device_id,
        DeviceId::EmulatedTablet => 0,
    }
}

/// The interest to register: each tool, each pad, then all masters; nothing
/// when there is no tool and no pad.
pub open spec fn interest_spec(tools: Seq<ToolView>, pads: Seq<Pad>) -> Seq<Interest> {
    if tools.len() == 0 && pads.len() == 0 {
        Seq::empty()
    } else {
        tools.map_values(|t: ToolView| Interest::Tool(raw_id(t.id)))
            + pads.map_values(|p: Pad| Interest::Pad(raw_id(p.id)))
            + seq![Interest::AllMasters]
    }
}

/// The tools, pads and tablets of one enumeration epoch, with the trackers
/// of the tools and pads (`tool_infos[i]` belongs to `tools[i]`, and
/// `pad_infos[i]` to `pads[i]`).
pub struct Registry {
    pub tools: Vec<Tool>,
    pub tool_infos: Vec<ToolInfo>,
    pub pads: Vec<Pad>,
    pub pad_infos: Vec<PadInfo>,
    pub tablets: Vec<Tablet>,
}

impl View for Registry {
    type V = RegistryView;

    open spec fn view(&self) -> RegistryView {
        RegistryView {
            tools: self.tools@.map_values(|t: Tool| t@),
            tool_infos: self.tool_infos@,
            pads: self.pads@,
            pad_infos: self.pad_infos@,
            tablets: self.tablets@.map_values(|t: Tablet| t@),
        }
    }
}

impl Registry {
    pub open spec fn wf(&self) -> bool {
        &&& self.tools@.len() == self.tool_infos@.len()
        &&& self.pads@.len() == self.pad_infos@.len()
        &&& forall|i: int| 0 <= i < self.tool_infos@.len() ==> (#[trigger] self.tool_infos@[i]).wf()
        &&& forall|i: int| 0 <= i < self.pad_infos@.len() ==> (#[trigger] self.pad_infos@[i]).wf()
        &&& forall|i: int| 0 <= i < self.tools@.len() ==> (#[trigger] self.tools@[i]).id.wf()
        &&& forall|i: int| 0 <= i < self.pads@.len() ==> (#[trigger] self.pads@[i]).id.wf()
        &&& forall|i: int, j: int|
            0 <= i < j < self.tools@.len() ==> (#[trigger] self.tools@[i]).id != (#[trigger] self.tools@[j]).id
        &&& forall|i: int, j: int|
            0 <= i < j < self.pads@.len() ==> (#[trigger] self.pads@[i]).id != (#[trigger] self.pads@[j]).id
    }

    pub fn new() -> (r: Registry)
        ensures
            r@ == empty_registry(),
            r.wf(),
    {
        let r = Registry { tools: Vec::new(), tool_infos: Vec::new(), pads: Vec::new(), pad_infos: Vec::new(), tablets: Vec::new() };
        proof {
            assert(r@.tools =~= Seq::<ToolView>::empty());
            assert(r@.tablets =~= Seq::<TabletView>::empty());
        }
        r
    }

    /// The interest to register for this registry's devices.
    pub fn interest(&self) -> (r: Vec<Interest>)
        ensures
            r@ == interest_spec(self@.tools, self@.pads),
    {
        let mut r: Vec<Interest> = Vec::new();
        if self.tools.len() == 0 && self.pads.len() == 0 {
            proof {
                assert(r@ =~= interest_spec(self@.tools, self@.pads));
            }
            return r;
        }
        let mut i: usize = 0;
        while i < self.tools.len()
            invariant
                i <= self.tools@.len(),
                r@ == self@.tools.subrange(0, i as int).map_values(|t: ToolView| Interest::Tool(raw_id(t.id))),
            decreases self.tools@.len() - i,
        {
            let raw = match self.tools[i].id {
                DeviceId::Device { device_id, .. } => device_id,
                DeviceId::EmulatedTablet => 0,
            };
            r.push(Interest::Tool(raw));
            proof {
                assert(r@ =~= self@.tools.subrange(0, i + 1).map_values(|t: ToolView| Interest::Tool(raw_id(t.id))));
            }
            i = i + 1;
        }
        let ghost tool_part = r@;
        let mut j: usize = 0;
        while j < self.pads.len()
            invariant
                j <= self.pads@.len(),
                r@ == tool_part + self@.pads.subrange(0, j as int).map_values(|p: Pad| Interest::Pad(raw_id(p.id))),
            decreases self.pads@.len() - j,
        {
            let raw = match self.pads[j].id {
                DeviceId::Device { device_id, .. } => device_id,
                DeviceId::EmulatedTablet => 0,
            };
            r.push(Interest::Pad(raw));
            proof {
                assert(r@ =~= tool_part + self@.pads.subrange(0, j + 1).map_values(|p: Pad| Interest::Pad(raw_id(p.id))));
            }
            j = j + 1;
        }
        r.push(Interest::AllMasters);
        proof {
            assert(self@.tools.subrange(0, self@.tools.len() as int) =~= self@.tools);
            assert(self@.pads.subrange(0, self@.pads.len() as int) =~= self@.pads);
            assert(r@ =~= interest_spec(self@.tools, self@.pads));
        }
        r
    }
}

/// Whether a device before position `i` of the list has the raw id of device `i`.
fn listed_earlier(listed: &Vec<ListedDevice>, i: usize) -> (r: bool)
    requires
        i < listed@.len(),
    ensures
        r == listed_before(listed@.subrange(0, i as int), listed@[i as int].device_id),
{
    let id = listed[i].device_id;
    let ghost prefix = listed@.subrange(0, i as int);
    let mut j: usize = 0;
    while j < i
        invariant
            j <= i < listed@.len(),
            id == listed@[i as int].device_id,
            prefix == listed@.subrange(0, i as int),
            forall|k: int| 0 <= k < j ==> (#[trigger] prefix[k]).device_id != id,
        decreases i - j,
    {
        if listed[j].device_id == id {
            proof {
                assert(prefix[j as int].device_id == id);
            }
            return true;
        }
        j = j + 1;
    }
    false
}

/// Every id in `ids` belongs to epoch `generation` and to a device of `listed`.
pub open spec fn ids_from(ids: Seq<DeviceId>, listed: Seq<ListedDevice>, generation: u16) -> bool {
    forall|k: int| 0 <= k < ids.len() ==> {
        &&& (#[trigger] ids[k]) == (DeviceId::Device { generation, device_id: raw_id(ids[k]) })
        &&& listed_before(listed, raw_id(ids[k]))
    }
}

proof fn lemma_listed_before_grows(listed: Seq<ListedDevice>, i: int, id: u16)
    requires
        0 <= i < listed.len(),
        listed_before(listed.subrange(0, i), id),
    ensures
        listed_before(listed.subrange(0, i + 1), id),
{
    let j = choose|j: int| 0 <= j < i && #[trigger] listed.subrange(0, i)[j].device_id == id;
    assert(listed.subrange(0, i + 1)[j] == listed.subrange(0, i)[j]);
}

/// Whether some tablet has id `id`.
pub fn find_tablet_id(tablets: &Vec<Tablet>, id: DeviceId) -> (r: bool)
    ensures
        r == has_tablet(tablets@.map_values(|t: Tablet| t@), id),
{
    let ghost views = tablets@.map_values(|t: Tablet| t@);
    let mut i: usize = 0;
    while i < tablets.len()
        invariant
            i <= tablets@.len(),
            views == tablets@.map_values(|t: Tablet| t@),
            forall|j: int| 0 <= j < i ==> views[j].id != id,
        decreases tablets@.len() - i,
    {
        if tablets[i].id == id {
            proof {
                assert(views[i as int].id == id);
            }
            return true;
        }
        i = i + 1;
    }
    false
}

/// Runs a classification pass over the device list, joined with the
/// per-class query by device id, giving every record the epoch `generation`.
pub fn classify(listed: &Vec<ListedDevice>, queries: &Vec<QueriedDevice>, generation: u16) -> (r: Registry)
    ensures
        r@ == registry_spec(listed@, queries@, generation),
        r.wf(),
{
    let mut c = Registry::new();
    let mut i: usize = 0;
    proof {
        assert(listed@.subrange(0, 0) =~= Seq::<ListedDevice>::empty());
    }
    while i < listed.len()
        invariant
            i <= listed@.len(),
            c@ == collect(listed@.subrange(0, i as int), queries@, generation),
            c.wf(),
            ids_from(c@.tools.map_values(|t: ToolView| t.id), listed@.subrange(0, i as int), generation),
            ids_from(c@.pads.map_values(|p: Pad| p.id), listed@.subrange(0, i as int), generation),
        decreases listed@.len() - i,
    {
        proof {
            assert(listed@.subrange(0, i + 1).drop_last() =~= listed@.subrange(0, i as int));
            assert(listed@.subrange(0, i + 1).last() == listed@[i as int]);
            assert forall|r: u16| listed_before(listed@.subrange(0, i as int), r) implies listed_before(
                listed@.subrange(0, i + 1),
                r,
            ) by {
                lemma_listed_before_grows(listed@, i as int, r);
            }
            assert(listed_before(listed@.subrange(0, i + 1), listed@[i as int].device_id)) by {
                assert(listed@.subrange(0, i + 1)[i as int] == listed@[i as int]);
            }
        }
        let ghost before = c@;
        let ghost ids_before = c@.tools.map_values(|t: ToolView| t.id);
        let ghost pads_before = c@.pads.map_values(|p: Pad| p.id);
        if listed_earlier(listed, i) {
            i = i + 1;
            continue;
        }
        match classify_one(&listed[i], queries, generation) {
            ClassifiedDevice::Tool(t, info) => {
                let ghost tv = t@;
                c.tools.push(t);
                c.tool_infos.push(info);
                proof {
                    assert(c@.tools =~= before.tools.push(tv));
                    assert(c@.tools.map_values(|t: ToolView| t.id) =~= ids_before.push(tv.id));
                    assert forall|a: int, b: int| 0 <= a < b < c.tools@.len() implies (#[trigger] c.tools@[a]).id != (
                    #[trigger] c.tools@[b]).id by {
                        if b == c.tools@.len() - 1 {
                            assert(ids_before[a] == c.tools@[a].id);
                        }
                    }
                }
            },
            ClassifiedDevice::Pad(p, info) => {
                c.pads.push(p);
                c.pad_infos.push(info);
                proof {
                    assert(c@.tools =~= before.tools);
                    assert(c@.pads.map_values(|p: Pad| p.id) =~= pads_before.push(p.id));
                    assert forall|a: int, b: int| 0 <= a < b < c.pads@.len() implies (#[trigger] c.pads@[a]).id != (
                    #[trigger] c.pads@[b]).id by {
                        if b == c.pads@.len() - 1 {
                            assert(pads_before[a] == c.pads@[a].id);
                        }
                    }
                }
            },
            ClassifiedDevice::Tablet(t) => {
                let ghost tv = t@;
                c.tablets.push(t);
                proof {
                    assert(c@.tablets =~= before.tablets.push(tv));
                    assert(c@.tools =~= before.tools);
                }
            },
            ClassifiedDevice::Skip => {},
        }
        proof {
            assert(c@.tablets =~= collect(listed@.subrange(0, i + 1), queries@, generation).tablets);
        }
        i = i + 1;
    }
    proof {
        assert(listed@.subrange(0, i as int) =~= listed@);
    }
    let ghost col = c@;
    let ghost tool_infos = col.tool_infos.map_values(
        |x: ToolInfo| ToolInfo { tablet: resolve_tablet(col.tablets, x.tablet), ..x },
    );
    let ghost pad_infos = col.pad_infos.map_values(
        |p: PadInfo| PadInfo { tablet: resolve_tablet(col.tablets, p.tablet), ..p },
    );
    let mut wants_emulated = false;
    let mut new_tools: Vec<ToolInfo> = Vec::new();
    let mut k: usize = 0;
    while k < c.tool_infos.len()
        invariant
            c@ == col,
            c.wf(),
            k <= c.tool_infos@.len(),
            new_tools@ == tool_infos.subrange(0, k as int),
            tool_infos == col.tool_infos.map_values(
                |x: ToolInfo| ToolInfo { tablet: resolve_tablet(col.tablets, x.tablet), ..x },
            ),
            forall|j: int| 0 <= j < k ==> (#[trigger] new_tools@[j]).wf(),
            wants_emulated == exists|j: int| 0 <= j < k && #[trigger] tool_infos[j].tablet == DeviceId::EmulatedTablet,
        decreases c.tool_infos@.len() - k,
    {
        let mut info = c.tool_infos[k];
        if info.tablet != DeviceId::EmulatedTablet && !find_tablet_id(&c.tablets, info.tablet) {
            info.tablet = DeviceId::EmulatedTablet;
        }
        if info.tablet == DeviceId::EmulatedTablet {
            wants_emulated = true;
        }
        new_tools.push(info);
        proof {
            assert(new_tools@ =~= tool_infos.subrange(0, k + 1));
            assert(tool_infos[k as int] == info);
        }
        k = k + 1;
    }
    let ghost wants_tools = wants_emulated;
    let mut new_pads: Vec<PadInfo> = Vec::new();
    let mut m: usize = 0;
    while m < c.pad_infos.len()
        invariant
            c@ == col,
            c.wf(),
            m <= c.pad_infos@.len(),
            new_pads@ == pad_infos.subrange(0, m as int),
            pad_infos == col.pad_infos.map_values(
                |p: PadInfo| PadInfo { tablet: resolve_tablet(col.tablets, p.tablet), ..p },
            ),
            forall|j: int| 0 <= j < m ==> (#[trigger] new_pads@[j]).wf(),
            wants_emulated == (wants_tools || exists|j: int| 0 <= j < m && #[trigger] pad_infos[j].tablet == DeviceId::EmulatedTablet),
        decreases c.pad_infos@.len() - m,
    {
        let mut info = c.pad_infos[m];
        if info.tablet != DeviceId::EmulatedTablet && !find_tablet_id(&c.tablets, info.tablet) {
            info.tablet = DeviceId::EmulatedTablet;
        }
        if info.tablet == DeviceId::EmulatedTablet {
            wants_emulated = true;
        }
        new_pads.push(info);
        proof {
            assert(new_pads@ =~= pad_infos.subrange(0, m + 1));
            assert(pad_infos[m as int] == info);
        }
        m = m + 1;
    }
    proof {
        assert(new_tools@ =~= tool_infos);
        assert(new_pads@ =~= pad_infos);
    }
    let mut tablets = c.tablets;
    if wants_emulated {
        let label = "octotablet emulated".as_bytes();
        let name = copy_range(label, 0, label.len());
        proof {
            assert(label@.subrange(0, label@.len() as int) =~= label@);
        }
        let ghost before = tablets@.map_values(|t: Tablet| t@);
        let t = Tablet { id: DeviceId::EmulatedTablet, name: Some(name), usb_id: None };
        tablets.push(t);
        proof {
            assert(tablets@.map_values(|t: Tablet| t@) =~= before.push(emulated_tablet()));
        }
    }
    Registry { tools: c.tools, tool_infos: new_tools, pads: c.pads, pad_infos: new_pads, tablets }
}

/// A device whose type label names no known role (a mouse, a touchscreen)
/// is neither a tool nor a pad nor a tablet.
pub proof fn lemma_unrecognized_type_skipped(d: ListedDevice, queries: Seq<QueriedDevice>, generation: u16)
    requires
        d.type_label matches Some(label) && device_type_spec(label@) is None,
    ensures
        classify_device(d, queries, generation) is Skip,
{
}

/// Listing such a device adds nothing to the registry.
pub proof fn lemma_unrecognized_adds_nothing(listed: Seq<ListedDevice>, d: ListedDevice, queries: Seq<QueriedDevice>, generation: u16)
    requires
        d.type_label matches Some(label) && device_type_spec(label@) is None,
    ensures
        collect(listed.push(d), queries, generation) == collect(listed, queries, generation),
{
    assert(listed.push(d).drop_last() =~= listed);
}

proof fn lemma_collect_excludes(listed: Seq<ListedDevice>, queries: Seq<QueriedDevice>, generation: u16, raw: u16)
    requires
        forall|j: int| 0 <= j < listed.len() && (#[trigger] listed[j]).device_id == raw ==> (listed[j].type_label matches Some(
            label,
        ) && device_type_spec(label@) is None),
    ensures
        ({
            let c = collect(listed, queries, generation);
            let id = DeviceId::Device { generation, device_id: raw };
            &&& forall|k: int| 0 <= k < c.tools.len() ==> (#[trigger] c.tools[k]).id != id
            &&& forall|k: int| 0 <= k < c.pads.len() ==> (#[trigger] c.pads[k]).id != id
            &&& forall|k: int| 0 <= k < c.tablets.len() ==> (#[trigger] c.tablets[k]).id != id
        }),
    decreases listed.len(),
{
    if listed.len() > 0 {
        let prefix = listed.drop_last();
        assert forall|j: int| 0 <= j < prefix.len() && (#[trigger] prefix[j]).device_id == raw implies (prefix[j].type_label matches Some(
            label,
        ) && device_type_spec(label@) is None) by {
            assert(prefix[j] == listed[j]);
        }
        lemma_collect_excludes(prefix, queries, generation, raw);
        let last = listed.last();
        if last.device_id == raw {
            assert(listed[listed.len() - 1] == last);
            lemma_unrecognized_type_skipped(last, queries, generation);
        }
    }
}

/// A raw id whose every listing carries a type label of no known role (a
/// mouse, a touchscreen) names no tool, pad or tablet of the registry.
pub proof fn lemma_unrecognized_id_absent(listed: Seq<ListedDevice>, queries: Seq<QueriedDevice>, generation: u16, raw: u16)
    requires
        forall|j: int| 0 <= j < listed.len() && (#[trigger] listed[j]).device_id == raw ==> (listed[j].type_label matches Some(
            label,
        ) && device_type_spec(label@) is None),
    ensures
        ({
            let r = registry_spec(listed, queries, generation);
            let id = DeviceId::Device { generation, device_id: raw };
            &&& forall|k: int| 0 <= k < r.tools.len() ==> (#[trigger] r.tools[k]).id != id
            &&& forall|k: int| 0 <= k < r.pads.len() ==> (#[trigger] r.pads[k]).id != id
            &&& forall|k: int| 0 <= k < r.tablets.len() ==> (#[trigger] r.tablets[k]).id != id
        }),
{
    lemma_collect_excludes(listed, queries, generation, raw);
}

} // verus!
