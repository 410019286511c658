//! What the platform layer knows of each controller, and the resolution of
//! platform events to device ids.
//!
//! The operating system is read elsewhere; this module receives what was read
//! as plain values.

use vstd::prelude::*;
use crate::axis::AxisInfo;
use crate::code::{EvCode, EvCodeKind, AXIS_LT2, AXIS_RT2};
use crate::ev::{RawEvent, RawEventType};
use crate::gamepad::{Gamepad as Device, PowerInfo, Status};

verus! {

/// USB bus type, as SDL numbers it.
pub const SDL_HARDWARE_BUS_USB: u32 = 0x03;

/// Bluetooth bus type, as SDL numbers it.
pub const SDL_HARDWARE_BUS_BLUETOOTH: u32 = 0x05;

/// What the operating system reports of a controller when it is found.
#[derive(Clone, Debug)]
pub struct ControllerInfo {
    /// An id that survives disconnects (UTF-16, as the system gives it).
    pub non_roamable_id: Vec<u16>,
    /// The display name, where the system could give one.
    pub display_name: Option<String>,
    /// Whether the system offers the standard gamepad layout for it.
    pub is_standard: bool,
    pub vendor_id: u16,
    pub product_id: u16,
    pub axis_count: u32,
    pub button_count: u32,
    pub switch_count: u32,
    /// Whether the system lists force-feedback motors for it.
    pub has_ff_motors: bool,
}

impl ControllerInfo {
    /// Every synthetic switch axis has an index that fits a code.
    pub open spec fn wf(&self) -> bool {
        self.switch_count < 0x8000_0000
    }
}

/// Battery status as the system reports it.
#[derive(Copy, Clone, Debug, PartialEq, Eq, Structural)]
pub enum BatteryStatus {
    NotPresent,
    Discharging,
    Idle,
    Charging,
    Other,
}

/// Bytes of a 16-bit value in the other order.
pub open spec fn swap16(v: u16) -> u16 {
    ((v % 256) * 256 + v / 256) as u16
}

/// Bytes of a 32-bit value in the other order.
pub open spec fn swap32(v: u32) -> u32 {
    ((v % 256) * 0x100_0000 + (v / 256 % 256) * 0x1_0000 + (v / 0x1_0000 % 256) * 256 + v
        / 0x100_0000) as u32
}

fn swap_bytes16(v: u16) -> (r: u16)
    ensures
        r == swap16(v),
{
    ((v % 256) * 256) + v / 256
}

fn swap_bytes32(v: u32) -> (r: u32)
    ensures
        r == swap32(v),
{
    (v % 256) * 0x100_0000 + (v / 256 % 256) * 0x1_0000 + (v / 0x1_0000 % 256) * 256 + v / 0x100_0000
}

/// The 128-bit value of a UUID built from its fields, big-endian.
pub open spec fn uuid_fields_value(d1: u32, d2: u16, d3: u16, d4: Seq<u8>) -> int {
    d1 * 0x1_0000_0000_0000_0000_0000_0000 + d2 * 0x1_0000_0000_0000_0000_0000 + d3
        * 0x1_0000_0000_0000_0000 + d4[0] * 0x100_0000_0000_0000 + d4[1] * 0x1_0000_0000_0000
        + d4[2] * 0x100_0000_0000 + d4[3] * 0x1_0000_0000 + d4[4] * 0x100_0000 + d4[5] * 0x1_0000
        + d4[6] * 0x100 + d4[7]
}

/// Relies on uuid's `Uuid::from_fields` and `Uuid::as_u128`: the fields are
/// laid out big-endian, `d1` first.
#[verifier::external_body]
fn uuid_from_fields(d1: u32, d2: u16, d3: u16, d4: [u8; 8]) -> (r: u128)
    ensures
        r == uuid_fields_value(d1, d2, d3, d4@),
{
    uuid::Uuid::from_fields(d1, d2, d3, &d4).as_u128()
}

/// The UUID of a controller without the standard layout, as SDL builds it
/// on Windows: bus type, vendor and product as little-endian fields.
pub open spec fn raw_uuid(vendor: u16, product: u16) -> int {
    let p = swap16(product);
    uuid_fields_value(
        swap32(SDL_HARDWARE_BUS_USB),
        swap16(vendor),
        0,
        seq![(p / 256) as u8, (p % 256) as u8, 0u8, 0u8, 0u8, 0u8, 0u8, 0u8],
    )
}

/// Codes `kind(0) .. kind(n - 1)`.
pub open spec fn codes(kind: EvCodeKind, n: nat) -> Seq<EvCode> {
    Seq::new(n, |i: int| EvCode { kind, index: i as u32 })
}

/// Whether `g` is what the platform layer makes of a controller found with
/// `info` under `id` (its connection flag aside).
pub open spec fn built_from(g: Gamepad, id: usize, info: ControllerInfo) -> bool {
    &&& g.id_view() == id
    &&& g.stable_id_view() == info.non_roamable_id@
    &&& g.is_standard_view() == info.is_standard
    &&& g.ff_motors_view() == info.has_ff_motors
    &&& g.name_view() == match info.display_name {
        Some(n) => n@,
        None => "unknown"@,
    }
    &&& info.is_standard ==> g.uuid_view() == 0
    &&& !info.is_standard ==> g.uuid_view() == raw_uuid(info.vendor_id, info.product_id)
    &&& g.buttons_view() == codes(EvCodeKind::Button, info.button_count as nat)
    &&& g.axes_view() == codes(EvCodeKind::Axis, info.axis_count as nat) + codes(
        EvCodeKind::Switch,
        2 * info.switch_count as nat,
    )
}

/// One controller as the platform layer sees it.
#[derive(Clone, Debug)]
pub struct Gamepad {
    id: usize,
    name: String,
    uuid: u128,
    is_connected: bool,
    non_roamable_id: Vec<u16>,
    is_standard: bool,
    has_ff_motors: bool,
    axes: Vec<EvCode>,
    buttons: Vec<EvCode>,
}

impl Gamepad {
    pub closed spec fn id_view(&self) -> usize {
        self.id
    }

    pub closed spec fn name_view(&self) -> Seq<char> {
        self.name@
    }

    pub closed spec fn uuid_view(&self) -> u128 {
        self.uuid
    }

    pub closed spec fn connected_view(&self) -> bool {
        self.is_connected
    }

    pub closed spec fn stable_id_view(&self) -> Seq<u16> {
        self.non_roamable_id@
    }

    pub closed spec fn is_standard_view(&self) -> bool {
        self.is_standard
    }

    pub closed spec fn ff_motors_view(&self) -> bool {
        self.has_ff_motors
    }

    pub closed spec fn axes_view(&self) -> Seq<EvCode> {
        self.axes@
    }

    pub closed spec fn buttons_view(&self) -> Seq<EvCode> {
        self.buttons@
    }

    /// A controller that was just found; it counts as connected.
    pub fn new(id: usize, info: ControllerInfo) -> (r: Gamepad)
        requires
            info.wf(),
        ensures
            built_from(r, id, info),
            r.connected_view(),
    {
        let uuid = if info.is_standard {
            0
        } else {
            let vendor = swap_bytes16(info.vendor_id);
            let product = swap_bytes16(info.product_id);
            let bustype = swap_bytes32(SDL_HARDWARE_BUS_USB);
            let d4: [u8; 8] = [(product / 256) as u8, (product % 256) as u8, 0, 0, 0, 0, 0, 0];
            proof {
                assert(d4@ =~= seq![
                    (product / 256) as u8,
                    (product % 256) as u8,
                    0u8,
                    0u8,
                    0u8,
                    0u8,
                    0u8,
                    0u8,
                ]);
            }
            uuid_from_fields(bustype, vendor, 0, d4)
        };
        let name = match info.display_name {
            Some(n) => n,
            None => String::from_str("unknown"),
        };
        let (buttons, axes) = collect_axes_and_buttons(
            info.axis_count,
            info.button_count,
            info.switch_count,
        );
        Gamepad {
            id,
            name,
            uuid,
            is_connected: true,
            non_roamable_id: info.non_roamable_id,
            is_standard: info.is_standard,
            has_ff_motors: info.has_ff_motors,
            axes,
            buttons,
        }
    }

    pub fn id(&self) -> (r: usize)
        ensures
            r == self.id_view(),
    {
        self.id
    }

    pub fn name(&self) -> (r: &str)
        ensures
            r@ == self.name_view(),
    {
        self.name.as_str()
    }

    pub fn uuid(&self) -> (r: u128)
        ensures
            r == self.uuid_view(),
    {
        self.uuid
    }

    pub fn is_connected(&self) -> (r: bool)
        ensures
            r == self.connected_view(),
    {
        self.is_connected
    }

    pub fn set_connected(&mut self, connected: bool)
        ensures
            final(self).connected_view() == connected,
            final(self).id_view() == old(self).id_view(),
            final(self).name_view() == old(self).name_view(),
            final(self).uuid_view() == old(self).uuid_view(),
            final(self).stable_id_view() == old(self).stable_id_view(),
            final(self).is_standard_view() == old(self).is_standard_view(),
            final(self).ff_motors_view() == old(self).ff_motors_view(),
            final(self).axes_view() == old(self).axes_view(),
            final(self).buttons_view() == old(self).buttons_view(),
    {
        self.is_connected = connected;
    }

    /// The stable id of the controller.
    pub fn non_roamable_id(&self) -> (r: &Vec<u16>)
        ensures
            r@ == self.stable_id_view(),
    {
        &self.non_roamable_id
    }

    /// Force feedback needs the standard layout and motors.
    pub fn is_ff_supported(&self) -> (r: bool)
        ensures
            r == (self.is_standard_view() && self.ff_motors_view()),
    {
        self.is_standard && self.has_ff_motors
    }

    /// The id under which force-feedback requests for this controller go.
    pub fn ff_device(&self) -> (r: Option<usize>)
        ensures
            r == Some(self.id_view()),
    {
        Some(self.id)
    }

    pub fn buttons(&self) -> (r: &Vec<EvCode>)
        ensures
            r@ == self.buttons_view(),
    {
        &self.buttons
    }

    pub fn axes(&self) -> (r: &Vec<EvCode>)
        ensures
            r@ == self.axes_view(),
    {
        &self.axes
    }

    /// Calibration of a native axis.
    pub open spec fn spec_axis_info(&self, nec: EvCode) -> Option<AxisInfo> {
        if !self.is_standard_view() {
            match nec.kind {
                EvCodeKind::Button => None,
                EvCodeKind::Axis => Some(AxisInfo { min: -32768i32, max: 32767i32, deadzone: None }),
                EvCodeKind::Switch => Some(AxisInfo { min: -1i32, max: 1i32, deadzone: None }),
            }
        } else if nec == (EvCode { kind: EvCodeKind::Axis, index: AXIS_LT2 }) || nec == (EvCode {
            kind: EvCodeKind::Axis,
            index: AXIS_RT2,
        }) {
            Some(AxisInfo { min: 0, max: i32::MAX, deadzone: None })
        } else {
            Some(AxisInfo { min: i32::MIN, max: i32::MAX, deadzone: None })
        }
    }

    /// Raw controllers report axes scaled to 16 bits and switches as -1..=1;
    /// the standard layout reports triggers in `0..=i32::MAX` and sticks in
    /// the whole `i32` range.
    pub fn axis_info(&self, nec: EvCode) -> (r: Option<AxisInfo>)
        ensures
            r == self.spec_axis_info(nec),
            r matches Some(i) ==> i.wf(),
    {
        if !self.is_standard {
            return match nec.kind {
                EvCodeKind::Button => None,
                EvCodeKind::Axis => Some(AxisInfo { min: -32768i32, max: 32767i32, deadzone: None }),
                EvCodeKind::Switch => Some(AxisInfo { min: -1i32, max: 1i32, deadzone: None }),
            };
        }
        let lt = EvCode::new(EvCodeKind::Axis, AXIS_LT2);
        let rt = EvCode::new(EvCodeKind::Axis, AXIS_RT2);
        if nec == lt || nec == rt {
            Some(AxisInfo { min: 0, max: i32::MAX, deadzone: None })
        } else {
            Some(AxisInfo { min: i32::MIN, max: i32::MAX, deadzone: None })
        }
    }
}

/// The native buttons and axes of a controller: buttons `0..buttons`; axes
/// `0..axes`, then two synthetic axes for each switch.
pub fn collect_axes_and_buttons(axis_count: u32, button_count: u32, switch_count: u32) -> (r: (
    Vec<EvCode>,
    Vec<EvCode>,
))
    requires
        switch_count < 0x8000_0000,
    ensures
        r.0@ == codes(EvCodeKind::Button, button_count as nat),
        r.1@ == codes(EvCodeKind::Axis, axis_count as nat) + codes(
            EvCodeKind::Switch,
            2 * switch_count as nat,
        ),
{
    let mut buttons: Vec<EvCode> = Vec::new();
    let mut i: u32 = 0;
    while i < button_count
        invariant
            i <= button_count,
            buttons@ == codes(EvCodeKind::Button, i as nat),
        decreases button_count - i,
    {
        buttons.push(EvCode::new(EvCodeKind::Button, i));
        proof {
            assert(buttons@ =~= codes(EvCodeKind::Button, (i + 1) as nat));
        }
        i = i + 1;
    }
    let mut axes: Vec<EvCode> = Vec::new();
    let mut i: u32 = 0;
    while i < axis_count
        invariant
            i <= axis_count,
            axes@ == codes(EvCodeKind::Axis, i as nat),
        decreases axis_count - i,
    {
        axes.push(EvCode::new(EvCodeKind::Axis, i));
        proof {
            assert(axes@ =~= codes(EvCodeKind::Axis, (i + 1) as nat));
        }
        i = i + 1;
    }
    let ghost plain = axes@;
    let mut i: u32 = 0;
    while i < switch_count
        invariant
            i <= switch_count < 0x8000_0000,
            plain == codes(EvCodeKind::Axis, axis_count as nat),
            axes@ == plain + codes(EvCodeKind::Switch, 2 * i as nat),
        decreases switch_count - i,
    {
        axes.push(EvCode::new(EvCodeKind::Switch, i * 2));
        axes.push(EvCode::new(EvCodeKind::Switch, i * 2 + 1));
        proof {
            assert(axes@ =~= plain + codes(EvCodeKind::Switch, 2 * (i + 1) as nat));
        }
        i = i + 1;
    }
    (buttons, axes)
}

/// The power state that a battery report gives. The charge in percent is
/// `remaining * 100 / full`, held to `0..=100` (a capacity or a remaining
/// charge of zero or less reads as 0); a full charge reads as `Charged`.
pub open spec fn spec_power_info(wireless: bool, status: BatteryStatus, full: i32, remaining: i32) -> PowerInfo {
    let ratio: int = if full <= 0 || remaining <= 0 {
        0
    } else {
        remaining * 100 / full as int
    };
    let percent: u8 = if ratio < 0 {
        0
    } else if ratio > 100 {
        100
    } else {
        ratio as u8
    };
    if !wireless {
        PowerInfo::Wired
    } else {
        match status {
            BatteryStatus::Discharging => if percent == 100 {
                PowerInfo::Charged
            } else {
                PowerInfo::Discharging(percent)
            },
            BatteryStatus::Charging => if percent == 100 {
                PowerInfo::Charged
            } else {
                PowerInfo::Charging(percent)
            },
            BatteryStatus::NotPresent => PowerInfo::Wired,
            BatteryStatus::Idle => PowerInfo::Charged,
            BatteryStatus::Other => PowerInfo::Unknown,
        }
    }
}

pub fn power_info_from(wireless: bool, status: BatteryStatus, full: i32, remaining: i32) -> (r:
    PowerInfo)
    ensures
        r == spec_power_info(wireless, status, full, remaining),
{
    let ratio: i64 = if full <= 0 || remaining <= 0 {
        0
    } else {
        (remaining as i64) * 100 / (full as i64)
    };
    let percent: u8 = if ratio < 0 {
        0
    } else if ratio > 100 {
        100
    } else {
        ratio as u8
    };
    if !wireless {
        return PowerInfo::Wired;
    }
    match status {
        BatteryStatus::Discharging => if percent == 100 {
            PowerInfo::Charged
        } else {
            PowerInfo::Discharging(percent)
        },
        BatteryStatus::Charging => if percent == 100 {
            PowerInfo::Charged
        } else {
            PowerInfo::Charging(percent)
        },
        BatteryStatus::NotPresent => PowerInfo::Wired,
        BatteryStatus::Idle => PowerInfo::Charged,
        BatteryStatus::Other => PowerInfo::Unknown,
    }
}

/// Whether two stable ids are the same.
fn same_id(a: &Vec<u16>, b: &Vec<u16>) -> (r: bool)
    ensures
        r == (a@ == b@),
{
    if a.len() != b.len() {
        return false;
    }
    let mut i: usize = 0;
    while i < a.len()
        invariant
            a@.len() == b@.len(),
            i <= a@.len(),
            forall|m: int| 0 <= m < i ==> a@[m] == b@[m],
        decreases a@.len() - i,
    {
        if a[i] != b[i] {
            return false;
        }
        i = i + 1;
    }
    proof {
        assert(a@ =~= b@);
    }
    true
}

/// The devices that the platform layer has seen, in the order it saw them;
/// a device's id is its position.
#[derive(Debug)]
pub struct Gilrs {
    gamepads: Vec<Device>,
}

impl Gilrs {
    pub closed spec fn devices(&self) -> Seq<Device> {
        self.gamepads@
    }

    /// Every device knows its own position as its platform id.
    pub open spec fn wf(&self) -> bool {
        forall|i: int|
            0 <= i < self.devices().len() ==> (#[trigger] self.devices()[i]).inner_view().id_view()
                == i && self.devices()[i].wf()
    }

    /// The controllers found at start, each connected, with ids in order.
    pub fn new(found: Vec<ControllerInfo>) -> (r: Gilrs)
        requires
            forall|i: int| 0 <= i < found@.len() ==> (#[trigger] found@[i]).wf(),
        ensures
            r.wf(),
            r.devices().len() == found@.len(),
            forall|i: int|
                0 <= i < found@.len() ==> (#[trigger] r.devices()[i]).status_view()
                    == Status::Connected && r.devices()[i].inner_view().stable_id_view()
                    == found@[i].non_roamable_id@,
    {
        let ghost all = found@;
        let n = found.len();
        let mut rest = found;
        let mut gamepads: Vec<Device> = Vec::new();
        let mut i: usize = 0;
        while rest.len() > 0
            invariant
                i <= all.len(),
                gamepads@.len() == i,
                rest@ == all.skip(i as int),
                all.len() == i + rest@.len(),
                all.len() == n,
                forall|j: int| 0 <= j < all.len() ==> (#[trigger] all[j]).wf(),
                forall|j: int|
                    0 <= j < i ==> (#[trigger] gamepads@[j]).inner_view().id_view() == j
                        && gamepads@[j].wf() && gamepads@[j].status_view() == Status::Connected
                        && gamepads@[j].inner_view().stable_id_view() == all[j].non_roamable_id@,
            decreases rest@.len(),
        {
            let info = rest.remove(0);
            proof {
                assert(info == all[i as int]);
                assert(rest@ =~= all.skip(i + 1));
            }
            let inner = Gamepad::new(i, info);
            gamepads.push(Device::new_device(inner, Status::Connected));
            i = i + 1;
        }
        Gilrs { gamepads }
    }

    /// The device with id `id`.
    pub fn gamepad(&self, id: usize) -> (r: Option<&Device>)
        ensures
            id < self.devices().len() ==> r == Some(&self.devices()[id as int]),
            id >= self.devices().len() ==> r is None,
    {
        if id < self.gamepads.len() {
            Some(&self.gamepads[id])
        } else {
            None
        }
    }

    /// Number of devices seen: every id below it is in use.
    pub fn last_gamepad_hint(&self) -> (r: usize)
        ensures
            r == self.devices().len(),
    {
        self.gamepads.len()
    }

    /// The first device with the given stable id.
    pub open spec fn spec_find(&self, stable_id: Seq<u16>) -> Option<int> {
        if exists|i: int|
            0 <= i < self.devices().len() && self.devices()[i].inner_view().stable_id_view() == stable_id
                && (forall|m: int| 0 <= m < i ==> self.devices()[m].inner_view().stable_id_view() != stable_id) {
            Some(
                choose|i: int|
                    0 <= i < self.devices().len() && self.devices()[i].inner_view().stable_id_view()
                        == stable_id && (forall|m: int|
                        0 <= m < i ==> self.devices()[m].inner_view().stable_id_view() != stable_id),
            )
        } else {
            None
        }
    }

    /// The device with id `id`, to change.
    pub fn gamepad_mut(&mut self, id: usize) -> (r: &mut Device)
        requires
            id < old(self).devices().len(),
        ensures
            *r == old(self).devices()[id as int],
            final(self).devices() == old(self).devices().update(id as int, *final(r)),
    {
        &mut self.gamepads[id]
    }

    /// Resolves a platform event to the id of its device: the first device
    /// with the same stable id, else a new device, not yet observed, under
    /// the next id. The platform's connection flag follows connect and
    /// disconnect events.
    pub fn next_event(&mut self, info: ControllerInfo, event: RawEventType, time: u64) -> (r: RawEvent)
        requires
            old(self).wf(),
            info.wf(),
        ensures
            final(self).wf(),
            r.event == event,
            r.time == time,
            r.id < final(self).devices().len(),
            match old(self).spec_find(info.non_roamable_id@) {
                Some(i) => r.id == i && final(self).devices().len() == old(self).devices().len(),
                None => {
                    let d = final(self).devices()[r.id as int];
                    &&& r.id == old(self).devices().len()
                    &&& final(self).devices().len() == old(self).devices().len() + 1
                    &&& built_from(d.inner_view(), r.id, info)
                    &&& d.status_view() == Status::NotObserved
                    &&& d.id_view() == usize::MAX
                    &&& d.mapping_view().is_default_view()
                    &&& forall|x: crate::ev::AxisOrBtn| d.mapping_view().spec_map_rev(x) is None
                    &&& forall|c: EvCode| d.state_view().btn(c) is None && d.state_view().axis(c) is None
                },
            },
            event != RawEventType::Connected && event != RawEventType::Disconnected ==> final(self).devices()[r.id as int].inner_view().connected_view() == match old(self).spec_find(
                info.non_roamable_id@,
            ) {
                Some(i) => old(self).devices()[i].inner_view().connected_view(),
                None => true,
            },
            forall|j: int|
                0 <= j < old(self).devices().len() && j != r.id ==> final(self).devices()[j]
                    == old(self).devices()[j],
            r.id < old(self).devices().len() ==> final(self).devices()[r.id as int].same_but_platform_flag(
                old(self).devices()[r.id as int],
            ),
            event == RawEventType::Connected ==> final(self).devices()[r.id as int].inner_view().connected_view(),
            event == RawEventType::Disconnected ==> !final(self).devices()[r.id as int].inner_view().connected_view(),
    {
        let id = match self.find(&info.non_roamable_id) {
            Some(i) => {
                proof {
                    let k = choose|k: int|
                        0 <= k < self.devices().len() && self.devices()[k].inner_view().stable_id_view()
                            == info.non_roamable_id@ && (forall|m: int|
                            0 <= m < k ==> self.devices()[m].inner_view().stable_id_view()
                                != info.non_roamable_id@);
                    assert(k == i);
                }
                i
            },
            None => {
                let n = self.gamepads.len();
                let inner = Gamepad::new(n, info);
                self.gamepads.push(Device::new_device(inner, Status::NotObserved));
                n
            },
        };
        let ghost before = self.devices();
        match event {
            RawEventType::Connected => self.gamepads[id].set_platform_connected(true),
            RawEventType::Disconnected => self.gamepads[id].set_platform_connected(false),
            _ => {},
        }
        proof {
            assert forall|i: int| 0 <= i < self.devices().len() implies (#[trigger] self.devices()[i]).inner_view().id_view()
                == i && self.devices()[i].wf() by {
                if i != id {
                    assert(self.devices()[i] == before[i]);
                }
            }
        }
        RawEvent { id, event, time }
    }

    /// The id of the device with the given stable id, if seen before.
    pub fn find(&self, stable_id: &Vec<u16>) -> (r: Option<usize>)
        ensures
            r matches Some(i) ==> i < self.devices().len() && self.devices()[i as int].inner_view().stable_id_view()
                == stable_id@ && forall|m: int|
                0 <= m < i ==> self.devices()[m].inner_view().stable_id_view() != stable_id@,
            r is None ==> forall|i: int|
                0 <= i < self.devices().len() ==> (#[trigger] self.devices()[i]).inner_view().stable_id_view()
                    != stable_id@,
    {
        let mut i: usize = 0;
        while i < self.gamepads.len()
            invariant
                i <= self.devices().len(),
                forall|j: int|
                    0 <= j < i ==> (#[trigger] self.devices()[j]).inner_view().stable_id_view()
                        != stable_id@,
            decreases self.devices().len() - i,
        {
            if same_id(self.gamepads[i].as_inner().non_roamable_id(), stable_id) {
                return Some(i);
            }
            i = i + 1;
        }
        None
    }
}

} // verus!
