//! Devices as the caller sees them, and the engine that turns raw events
//! into semantic ones.

use vstd::prelude::*;
use crate::axis::{hysteresis, Edge, spec_hysteresis, AxisInfo, DEFAULT_PRESSED, DEFAULT_RELEASED};
use crate::filter::{axis_dpad_to_button, deadzone, spec_axis_dpad_to_button, spec_deadzone, spec_jitter, Jitter};
use crate::axis::JITTER_THRESHOLD;
use crate::code::EvCode;
use crate::ev::{Axis, AxisOrBtn, Button, Event, EventType, RawEvent, RawEventType, UNIT};
use crate::mapping::{Mapping, MappingData, MappingError};
use crate::platform::{self, ControllerInfo};
use crate::sdl::{db_get, from_data, parse_sdl_mapping, spec_from_data, spec_parse, MappingDb};
use crate::state::{next_counter, AxisData, ButtonData, GamepadState, MAX_COUNTER};

verus! {

/// Connection status of a device.
#[derive(Copy, Clone, Debug, PartialEq, Eq, Structural)]
pub enum Status {
    Connected,
    Disconnected,
    NotObserved,
}

/// State of a device's power supply; charge levels are percent.
#[derive(Copy, Clone, Debug, PartialEq, Eq, Structural)]
pub enum PowerInfo {
    /// The state could not be determined.
    Unknown,
    /// The device has no battery.
    Wired,
    /// The device runs on its battery.
    Discharging(u8),
    /// The battery is charging.
    Charging(u8),
    /// The battery is full.
    Charged,
}

/// Where a device's mapping comes from.
#[derive(Copy, Clone, Debug, PartialEq, Eq, Structural)]
pub enum MappingSource {
    /// An SDL mapping text.
    SdlMappings,
    /// No mapping; the driver should give a uniform layout.
    Driver,
    /// No mapping, and most events will be `Unknown`.
    Unmapped,
}

/// A request for the force-feedback service; the engine never waits for it.
#[derive(Copy, Clone, Debug, PartialEq, Eq, Structural)]
pub enum FfMessage {
    Open { id: usize },
    Close { id: usize },
    /// The device's position, fixed-point (see `UNIT`).
    SetListenerPosition { id: usize, x: i32, y: i32, z: i32 },
}

/// Why a force-feedback request was refused.
#[derive(Copy, Clone, Debug, PartialEq, Eq, Structural)]
pub enum FfError {
    Disconnected(usize),
    FfNotSupported(usize),
}

/// Events that a raw event gives: the one to report now, and the companion
/// to report right after it, if any. `map` is what the event's code drives,
/// `info` the calibration of its axis; an axis reading on a code without
/// calibration gives a dropped event.
pub open spec fn spec_interpret(
    map: Option<AxisOrBtn>,
    info: Option<AxisInfo>,
    ev: RawEventType,
    pressed: bool,
    thr_pressed: i32,
    thr_released: i32,
) -> (EventType, Option<EventType>) {
    match ev {
        RawEventType::ButtonPressed(nec) => match map {
            Some(AxisOrBtn::Btn(b)) => (
                EventType::ButtonPressed(b, nec),
                Some(EventType::ButtonChanged(b, UNIT, nec)),
            ),
            Some(AxisOrBtn::Axis(a)) => (EventType::AxisChanged(a, UNIT, nec), None),
            None => (
                EventType::ButtonPressed(Button::Unknown, nec),
                Some(EventType::ButtonChanged(Button::Unknown, UNIT, nec)),
            ),
        },
        RawEventType::ButtonReleased(nec) => match map {
            Some(AxisOrBtn::Btn(b)) => (
                EventType::ButtonReleased(b, nec),
                Some(EventType::ButtonChanged(b, 0, nec)),
            ),
            Some(AxisOrBtn::Axis(a)) => (EventType::AxisChanged(a, 0, nec), None),
            None => (
                EventType::ButtonReleased(Button::Unknown, nec),
                Some(EventType::ButtonChanged(Button::Unknown, 0, nec)),
            ),
        },
        RawEventType::AxisValueChanged(val, nec) => match info {
            None => (EventType::Dropped, None),
            Some(i) => match map {
                Some(AxisOrBtn::Btn(b)) => {
                    let v = i.spec_value_btn(val) as i32;
                    match spec_hysteresis(v as int, thr_pressed as int, thr_released as int, pressed) {
                        Edge::Press => (
                            EventType::ButtonPressed(b, nec),
                            Some(EventType::ButtonChanged(b, v, nec)),
                        ),
                        Edge::Release => (
                            EventType::ButtonReleased(b, nec),
                            Some(EventType::ButtonChanged(b, v, nec)),
                        ),
                        Edge::NoEdge => (EventType::ButtonChanged(b, v, nec), None),
                    }
                },
                Some(AxisOrBtn::Axis(a)) => (
                    EventType::AxisChanged(a, i.spec_value_axis(val) as i32, nec),
                    None,
                ),
                None => (
                    EventType::AxisChanged(Axis::Unknown, i.spec_value_axis(val) as i32, nec),
                    None,
                ),
            },
        },
        RawEventType::Connected => (EventType::Connected, None),
        RawEventType::Disconnected => (EventType::Disconnected, None),
    }
}

/// Whether the data puts a control that SDL2 does not know on a code: `C`,
/// `Z`, `LeftZ` or `RightZ`.
pub open spec fn uses_extensions(m: MappingData) -> bool {
    m.spec_button(Button::C) is Some || m.spec_button(Button::Z) is Some || m.spec_axis(Axis::LeftZ)
        is Some || m.spec_axis(Axis::RightZ) is Some
}

/// What setting the mapping of device `d` from `mapping` and `name` does:
/// only a connected device takes one; it then gets the tables of the data,
/// the name given (else the system's name) and its own UUID, and the result
/// is the mapping text; an error leaves the mapping as it was.
pub open spec fn set_mapping_done(
    d: Gamepad,
    nd: Gamepad,
    mapping: MappingData,
    name: Option<&str>,
    r: Result<String, MappingError>,
) -> bool {
    &&& nd.inner_view() == d.inner_view()
    &&& nd.status_view() == d.status_view()
    &&& nd.state_view() == d.state_view()
    &&& nd.id_view() == d.id_view()
    &&& d.status_view() != Status::Connected ==> r == Err::<String, MappingError>(
        MappingError::NotConnected,
    ) && nd.mapping_view() == d.mapping_view()
    &&& d.status_view() == Status::Connected ==> {
        let n = match name {
            Some(s) => s@,
            None => d.inner_view().name_view(),
        };
        match (r, spec_from_data(
            mapping.btn_view(),
            mapping.axis_view(),
            d.inner_view().buttons_view(),
            d.inner_view().axes_view(),
            n,
            d.inner_view().uuid_view(),
        )) {
            (Ok(s), Ok(t)) => {
                &&& s@ == t
                &&& nd.mapping_view().btn_view() == mapping.btn_view()
                &&& nd.mapping_view().axis_view() == mapping.axis_view()
                &&& nd.mapping_view().name_view() == n
                &&& nd.mapping_view().uuid_view() == d.inner_view().uuid_view()
                &&& !nd.mapping_view().is_default_view()
            },
            (Err(e), Err(f)) => e == f && nd.mapping_view() == d.mapping_view(),
            _ => false,
        }
    }
}

/// One device: what the platform knows of it, its cached state, status and
/// mapping.
#[derive(Debug)]
pub struct Gamepad {
    inner: platform::Gamepad,
    state: GamepadState,
    status: Status,
    mapping: Mapping,
    id: usize,
}

impl Gamepad {
    pub closed spec fn inner_view(&self) -> platform::Gamepad {
        self.inner
    }

    pub closed spec fn state_view(&self) -> GamepadState {
        self.state
    }

    pub closed spec fn status_view(&self) -> Status {
        self.status
    }

    pub closed spec fn mapping_view(&self) -> Mapping {
        self.mapping
    }

    pub closed spec fn id_view(&self) -> usize {
        self.id
    }

    pub open spec fn wf(&self) -> bool {
        self.state_view().wf() && self.mapping_view().wf()
    }

    /// The code that button queries read: the mapped one, else the code of
    /// the standard layout.
    pub open spec fn query_code(&self, b: Button) -> Option<EvCode> {
        match self.mapping_view().spec_map_rev(AxisOrBtn::Btn(b)) {
            Some(c) => Some(c),
            None => b.spec_to_nec(),
        }
    }

    /// What a raw event of this device gives, with the given thresholds.
    pub open spec fn interpret(&self, ev: RawEventType, thr_pressed: i32, thr_released: i32) -> (
        EventType,
        Option<EventType>,
    ) {
        let nec = match ev {
            RawEventType::ButtonPressed(c) => c,
            RawEventType::ButtonReleased(c) => c,
            RawEventType::AxisValueChanged(_, c) => c,
            _ => EvCode { kind: crate::code::EvCodeKind::Button, index: 0 },
        };
        spec_interpret(
            self.mapping_view().spec_map(nec),
            self.inner_view().spec_axis_info(nec),
            ev,
            self.state_view().spec_is_pressed(nec),
            thr_pressed,
            thr_released,
        )
    }

    /// A device with empty state and the default mapping, not yet given an
    /// id.
    pub fn new_device(inner: platform::Gamepad, status: Status) -> (r: Gamepad)
        ensures
            r.wf(),
            r.inner_view() == inner,
            r.status_view() == status,
            r.id_view() == usize::MAX,
            r.mapping_view().is_default_view(),
            forall|x: AxisOrBtn| r.mapping_view().spec_map_rev(x) is None,
            forall|c: EvCode| r.state_view().btn(c) is None && r.state_view().axis(c) is None,
    {
        Gamepad {
            inner,
            state: GamepadState::new(),
            status,
            mapping: Mapping::new(),
            id: usize::MAX,
        }
    }

    /// The mapping's name where it has one, else the name the system gives.
    pub fn name(&self) -> (r: &str)
        ensures
            r@ == if self.mapping_view().name_view().len() == 0 {
                self.inner_view().name_view()
            } else {
                self.mapping_view().name_view()
            },
    {
        let map_name = self.map_name();
        if map_name.is_empty() {
            self.os_name()
        } else {
            map_name
        }
    }

    pub fn map_name(&self) -> (r: &str)
        ensures
            r@ == self.mapping_view().name_view(),
    {
        self.mapping.name()
    }

    pub fn os_name(&self) -> (r: &str)
        ensures
            r@ == self.inner_view().name_view(),
    {
        self.inner.name()
    }

    pub fn uuid(&self) -> (r: u128)
        ensures
            r == self.inner_view().uuid_view(),
    {
        self.inner.uuid()
    }

    pub fn state(&self) -> (r: &GamepadState)
        ensures
            *r == self.state_view(),
    {
        &self.state
    }

    pub fn status(&self) -> (r: Status)
        ensures
            r == self.status_view(),
    {
        self.status
    }

    pub fn is_connected(&self) -> (r: bool)
        ensures
            r == (self.status_view() == Status::Connected),
    {
        match self.status {
            Status::Connected => true,
            _ => false,
        }
    }

    /// Whether button `btn` is held; always false unless connected.
    pub fn is_pressed(&self, btn: Button) -> (r: bool)
        requires
            self.wf(),
            btn != Button::Unknown,
        ensures
            r == self.spec_is_pressed(btn),
    {
        if !self.is_connected() {
            return false;
        }
        let code = match self.button_code(btn) {
            Some(c) => Some(c),
            None => btn.to_nec(),
        };
        match code {
            Some(c) => self.state.is_pressed(c),
            None => false,
        }
    }

    /// Whether button `btn` is held, as `is_pressed` reports it.
    pub open spec fn spec_is_pressed(&self, btn: Button) -> bool {
        self.status_view() == Status::Connected && match self.query_code(btn) {
            Some(c) => self.state_view().spec_is_pressed(c),
            None => false,
        }
    }

    /// The value of axis `axis`; always 0 unless connected.
    pub fn value(&self, axis: Axis) -> (r: i32)
        requires
            self.wf(),
            axis != Axis::Unknown,
        ensures
            r == if self.status_view() == Status::Connected {
                match self.mapping_view().spec_map_rev(AxisOrBtn::Axis(axis)) {
                    Some(c) => self.state_view().spec_value(c),
                    None => 0,
                }
            } else {
                0
            },
    {
        if !self.is_connected() {
            return 0;
        }
        match self.axis_code(axis) {
            Some(c) => self.state.value(c),
            None => 0,
        }
    }

    /// Cached data of button `btn`; nothing unless connected.
    pub fn button_data(&self, btn: Button) -> (r: Option<ButtonData>)
        requires
            self.wf(),
        ensures
            r == if self.status_view() == Status::Connected {
                match self.mapping_view().spec_map_rev(AxisOrBtn::Btn(btn)) {
                    Some(c) => self.state_view().btn(c),
                    None => None,
                }
            } else {
                None
            },
    {
        if !self.is_connected() {
            return None;
        }
        match self.button_code(btn) {
            Some(c) => self.state.button_data(c),
            None => None,
        }
    }

    /// Cached data of axis `axis`; nothing unless connected.
    pub fn axis_data(&self, axis: Axis) -> (r: Option<AxisData>)
        requires
            self.wf(),
        ensures
            r == if self.status_view() == Status::Connected {
                match self.mapping_view().spec_map_rev(AxisOrBtn::Axis(axis)) {
                    Some(c) => self.state_view().axis(c),
                    None => None,
                }
            } else {
                None
            },
    {
        if !self.is_connected() {
            return None;
        }
        match self.axis_code(axis) {
            Some(c) => self.state.axis_data(c),
            None => None,
        }
    }

    pub fn mapping_source(&self) -> (r: MappingSource)
        ensures
            r == if self.mapping_view().is_default_view() {
                MappingSource::Driver
            } else {
                MappingSource::SdlMappings
            },
    {
        if self.mapping.is_default() {
            MappingSource::Driver
        } else {
            MappingSource::SdlMappings
        }
    }

    pub fn is_ff_supported(&self) -> (r: bool)
        ensures
            r == (self.inner_view().is_standard_view() && self.inner_view().ff_motors_view()),
    {
        self.inner.is_ff_supported()
    }

    /// The request that moves the device's force-feedback listener.
    pub fn set_listener_position(&self, x: i32, y: i32, z: i32) -> (r: Result<FfMessage, FfError>)
        ensures
            self.status_view() != Status::Connected ==> r == Err::<FfMessage, FfError>(
                FfError::Disconnected(self.id_view()),
            ),
            self.status_view() == Status::Connected && !(self.inner_view().is_standard_view()
                && self.inner_view().ff_motors_view()) ==> r == Err::<FfMessage, FfError>(
                FfError::FfNotSupported(self.id_view()),
            ),
            self.status_view() == Status::Connected && self.inner_view().is_standard_view()
                && self.inner_view().ff_motors_view() ==> r == Ok::<FfMessage, FfError>(
                FfMessage::SetListenerPosition { id: self.id_view(), x, y, z },
            ),
    {
        if !self.is_connected() {
            Err(FfError::Disconnected(self.id))
        } else if !self.is_ff_supported() {
            Err(FfError::FfNotSupported(self.id))
        } else {
            Ok(FfMessage::SetListenerPosition { id: self.id, x, y, z })
        }
    }

    /// The control that code `ec` drives.
    pub fn axis_or_btn_name(&self, ec: EvCode) -> (r: Option<AxisOrBtn>)
        requires
            self.wf(),
        ensures
            r == self.mapping_view().spec_map(ec),
    {
        self.mapping.map(ec)
    }

    /// The code that drives button `btn`.
    pub fn button_code(&self, btn: Button) -> (r: Option<EvCode>)
        requires
            self.wf(),
        ensures
            r == self.mapping_view().spec_map_rev(AxisOrBtn::Btn(btn)),
    {
        self.mapping.map_rev(AxisOrBtn::Btn(btn))
    }

    /// The code that drives axis `axis`.
    pub fn axis_code(&self, axis: Axis) -> (r: Option<EvCode>)
        requires
            self.wf(),
        ensures
            r == self.mapping_view().spec_map_rev(AxisOrBtn::Axis(axis)),
    {
        self.mapping.map_rev(AxisOrBtn::Axis(axis))
    }

    /// The deadzone of a native axis, normalized.
    pub fn deadzone(&self, axis: EvCode) -> (r: Option<i32>)
        ensures
            match self.inner_view().spec_axis_info(axis) {
                Some(i) => match i.spec_deadzone() {
                    Some(d) => r == Some(d as i32),
                    None => r is None,
                },
                None => r is None,
            },
            r matches Some(d) ==> 0 <= d <= UNIT,
    {
        match self.inner.axis_info(axis) {
            Some(i) => i.deadzone(),
            None => None,
        }
    }

    pub fn id(&self) -> (r: usize)
        ensures
            r == self.id_view(),
    {
        self.id
    }

    /// Equal to `other` but for the platform's connection flag.
    pub open spec fn same_but_platform_flag(&self, other: Gamepad) -> bool {
        &&& self.state_view() == other.state_view()
        &&& self.status_view() == other.status_view()
        &&& self.mapping_view() == other.mapping_view()
        &&& self.id_view() == other.id_view()
        &&& self.wf() == other.wf()
        &&& self.inner_view().id_view() == other.inner_view().id_view()
        &&& self.inner_view().name_view() == other.inner_view().name_view()
        &&& self.inner_view().uuid_view() == other.inner_view().uuid_view()
        &&& self.inner_view().stable_id_view() == other.inner_view().stable_id_view()
        &&& self.inner_view().is_standard_view() == other.inner_view().is_standard_view()
        &&& self.inner_view().ff_motors_view() == other.inner_view().ff_motors_view()
        &&& self.inner_view().axes_view() == other.inner_view().axes_view()
        &&& self.inner_view().buttons_view() == other.inner_view().buttons_view()
    }

    /// The deadzone of a native axis, as `deadzone` gives it.
    pub open spec fn spec_deadzone(&self, c: EvCode) -> Option<int> {
        match self.inner_view().spec_axis_info(c) {
            Some(i) => i.spec_deadzone(),
            None => None,
        }
    }

    /// Records what event `e` says of a button or axis in the cached state;
    /// nothing changes unless the device is connected.
    pub fn commit(&mut self, e: EventType, counter: u64, time: u64)
        requires
            old(self).wf(),
        ensures
            final(self).wf(),
            final(self).inner_view() == old(self).inner_view(),
            final(self).status_view() == old(self).status_view(),
            final(self).mapping_view() == old(self).mapping_view(),
            final(self).id_view() == old(self).id_view(),
            old(self).status_view() != Status::Connected ==> final(self).state_view()
                == old(self).state_view(),
            old(self).status_view() == Status::Connected ==> forall|c: EvCode|
                #[trigger] final(self).state_view().btn(c) == old(self).state_view().committed_btn(
                    e,
                    counter,
                    time,
                    c,
                ),
            old(self).status_view() == Status::Connected ==> forall|c: EvCode|
                #[trigger] final(self).state_view().axis(c) == old(self).state_view().committed_axis(
                    e,
                    counter,
                    time,
                    c,
                ),
    {
        if self.is_connected() {
            self.state.commit(e, counter, time);
        }
    }

    /// Sets the device's mapping from user data, named `name` or else by
    /// the system's name for the device; returns the mapping text. Only a
    /// connected device takes a mapping.
    pub fn set_mapping(&mut self, mapping: &MappingData, name: Option<&str>) -> (r: Result<String, MappingError>)
        requires
            old(self).wf(),
            mapping.wf(),
        ensures
            final(self).wf(),
            set_mapping_done(*old(self), *final(self), *mapping, name, r),
    {
        if !self.is_connected() {
            return Err(MappingError::NotConnected);
        }
        let result = match name {
            Some(s) => from_data(mapping, self.inner.buttons(), self.inner.axes(), s, self.inner.uuid()),
            None => from_data(
                mapping,
                self.inner.buttons(),
                self.inner.axes(),
                self.inner.name(),
                self.inner.uuid(),
            ),
        };
        match result {
            Ok((m, s)) => {
                self.mapping = m;
                Ok(s)
            },
            Err(e) => Err(e),
        }
    }

    /// As `set_mapping`, but refuses controls that SDL2 does not know: `C`,
    /// `Z`, `LeftZ` and `RightZ`.
    pub fn set_mapping_strict(&mut self, mapping: &MappingData, name: Option<&str>) -> (r: Result<String, MappingError>)
        requires
            old(self).wf(),
            mapping.wf(),
        ensures
            final(self).wf(),
            uses_extensions(*mapping) ==> r == Err::<String, MappingError>(
                MappingError::NotSdl2Compatible,
            ) && *final(self) == *old(self),
            !uses_extensions(*mapping) ==> set_mapping_done(*old(self), *final(self), *mapping, name, r),
    {
        if mapping.button(Button::C).is_some() || mapping.button(Button::Z).is_some() || mapping.axis(
            Axis::LeftZ,
        ).is_some() || mapping.axis(Axis::RightZ).is_some() {
            Err(MappingError::NotSdl2Compatible)
        } else {
            self.set_mapping(mapping, name)
        }
    }

    /// Sets the platform's connection flag.
    pub fn set_platform_connected(&mut self, connected: bool)
        ensures
            final(self).inner_view().connected_view() == connected,
            final(self).same_but_platform_flag(*old(self)),
    {
        self.inner.set_connected(connected);
    }

    pub fn as_inner(&self) -> (r: &platform::Gamepad)
        ensures
            *r == self.inner_view(),
    {
        &self.inner
    }

    /// What a raw event of this device gives: the event to report, and the
    /// companion to report right after it.
    pub fn interpret_raw(&self, ev: RawEventType, thr_pressed: i32, thr_released: i32) -> (r: (
        EventType,
        Option<EventType>,
    ))
        requires
            self.wf(),
        ensures
            r == self.interpret(ev, thr_pressed, thr_released),
    {
        match ev {
            RawEventType::ButtonPressed(nec) => match self.axis_or_btn_name(nec) {
                Some(AxisOrBtn::Btn(b)) => (
                    EventType::ButtonPressed(b, nec),
                    Some(EventType::ButtonChanged(b, UNIT, nec)),
                ),
                Some(AxisOrBtn::Axis(a)) => (EventType::AxisChanged(a, UNIT, nec), None),
                None => (
                    EventType::ButtonPressed(Button::Unknown, nec),
                    Some(EventType::ButtonChanged(Button::Unknown, UNIT, nec)),
                ),
            },
            RawEventType::ButtonReleased(nec) => match self.axis_or_btn_name(nec) {
                Some(AxisOrBtn::Btn(b)) => (
                    EventType::ButtonReleased(b, nec),
                    Some(EventType::ButtonChanged(b, 0, nec)),
                ),
                Some(AxisOrBtn::Axis(a)) => (EventType::AxisChanged(a, 0, nec), None),
                None => (
                    EventType::ButtonReleased(Button::Unknown, nec),
                    Some(EventType::ButtonChanged(Button::Unknown, 0, nec)),
                ),
            },
            RawEventType::AxisValueChanged(val, nec) => match self.inner.axis_info(nec) {
                None => (EventType::Dropped, None),
                Some(info) => match self.axis_or_btn_name(nec) {
                    Some(AxisOrBtn::Btn(b)) => {
                        let v = info.value_btn(val);
                        let pressed = self.state.is_pressed(nec);
                        match hysteresis(v, thr_pressed, thr_released, pressed) {
                            Edge::Press => (
                                EventType::ButtonPressed(b, nec),
                                Some(EventType::ButtonChanged(b, v, nec)),
                            ),
                            Edge::Release => (
                                EventType::ButtonReleased(b, nec),
                                Some(EventType::ButtonChanged(b, v, nec)),
                            ),
                            Edge::NoEdge => (EventType::ButtonChanged(b, v, nec), None),
                        }
                    },
                    Some(AxisOrBtn::Axis(a)) => (
                        EventType::AxisChanged(a, info.value_axis(val), nec),
                        None,
                    ),
                    None => (EventType::AxisChanged(Axis::Unknown, info.value_axis(val), nec), None),
                },
            },
            RawEventType::Connected => (EventType::Connected, None),
            RawEventType::Disconnected => (EventType::Disconnected, None),
        }
    }
}

/// Building a device from what the platform knows of it.
pub trait GamepadImplExt: Sized {
    fn from_inner_status(inner: platform::Gamepad, status: Status) -> Self;
}

impl GamepadImplExt for Gamepad {
    fn from_inner_status(inner: platform::Gamepad, status: Status) -> Gamepad {
        Gamepad::new_device(inner, status)
    }
}

/// A raw button press on a code that drives a button gives the specific
/// press and, right after it, the generic change to full value, for the same
/// button and code.
pub proof fn lemma_press_gives_companion(
    g: Gamepad,
    c: EvCode,
    b: Button,
    thr_pressed: i32,
    thr_released: i32,
)
    requires
        g.wf(),
        g.mapping_view().maps_to(c, AxisOrBtn::Btn(b)),
    ensures
        g.interpret(RawEventType::ButtonPressed(c), thr_pressed, thr_released) == (
            EventType::ButtonPressed(b, c),
            Some(EventType::ButtonChanged(b, UNIT, c)),
        ),
{
    let m = g.mapping_view();
    let y = choose|y: AxisOrBtn| m.maps_to(c, y);
    crate::mapping::lemma_maps_to_unique(m, c, AxisOrBtn::Btn(b), y);
}

/// Tables, name and UUID that a parsed mapping text gives.
pub type MappingView = (Seq<Option<EvCode>>, Seq<Option<EvCode>>, Seq<char>, u128);

/// What a device's mapping is on connection: the parse of the text stored
/// for its UUID, where there is one that parses.
pub open spec fn connect_mapping(db: Seq<(u128, Seq<char>)>, d: Gamepad) -> Option<MappingView> {
    match db_get(db, d.inner_view().uuid_view()) {
        Some(t) => match spec_parse(t, d.inner_view().buttons_view(), d.inner_view().axes_view()) {
            Ok(v) => Some(v),
            Err(_) => None,
        },
        None => None,
    }
}

/// Whether mapping `m` is the parsed one, or the default where there is
/// none.
pub open spec fn mapping_matches(m: Mapping, v: Option<MappingView>) -> bool {
    match v {
        Some((b, a, n, u)) => {
            &&& m.btn_view() == b
            &&& m.axis_view() == a
            &&& m.name_view() == n
            &&& m.uuid_view() == u
            &&& !m.is_default_view()
        },
        None => {
            &&& m.is_default_view()
            &&& m.name_view().len() == 0
            &&& forall|x: AxisOrBtn| m.spec_map_rev(x) is None
        },
    }
}

/// The event that `next_event_priv` gives in state `g`.
pub open spec fn spec_priv_event(g: Gilrs) -> Option<Event> {
    if g.queue_view().len() > 0 {
        Some(g.queue_view()[0])
    } else if g.raw_view().len() > 0 {
        let raw = g.raw_view()[0];
        let d = g.devices()[raw.id as int];
        Some(
            Event {
                id: raw.id,
                event: d.interpret(raw.event, g.pressed_view(), g.released_view()).0,
                time: raw.time,
            },
        )
    } else {
        None
    }
}

/// What one step of `next_event_priv` does from state `a` to state `b`,
/// with result `r`.
pub open spec fn priv_step(a: Gilrs, b: Gilrs, r: Option<Event>) -> bool {
    &&& (b.same_settings(a))
    &&& (r == spec_priv_event(a))
    &&& (r matches Some(e) ==> e.id < b.devices().len())
    &&& (a.queue_view().len() > 0 ==> {
        &&& r == Some(a.queue_view()[0])
        &&& b.queue_view() == a.queue_view().drop_first()
        &&& b.raw_view() == a.raw_view()
        &&& b.devices() == a.devices()
        &&& b.ff_view() == a.ff_view()
    })
    &&& (a.queue_view().len() == 0 && a.raw_view().len() == 0 ==> {
        &&& r is None
        &&& b.queue_view() == a.queue_view()
        &&& b.raw_view() == a.raw_view()
        &&& b.devices() == a.devices()
        &&& b.ff_view() == a.ff_view()
    })
    &&& (a.queue_view().len() == 0 && a.raw_view().len() > 0 ==> {
        let raw = a.raw_view()[0];
        let d = a.devices()[raw.id as int];
        let (e, companion) = d.interpret(
            raw.event,
            a.pressed_view(),
            a.released_view(),
        );
        let nd = b.devices()[raw.id as int];
        &&& r == Some(Event { id: raw.id, event: e, time: raw.time })
        &&& b.raw_view() == a.raw_view().drop_first()
        &&& b.queue_view() == match companion {
            Some(c) => seq![Event { id: raw.id, event: c, time: raw.time }],
            None => Seq::<Event>::empty(),
        }
        &&& b.devices().len() == a.devices().len()
        &&& forall|j: int|
            0 <= j < a.devices().len() && j != raw.id ==> b.devices()[j]
                == a.devices()[j]
        &&& nd.inner_view() == d.inner_view()
        &&& nd.state_view() == d.state_view()
        &&& (raw.event != RawEventType::Connected && raw.event != RawEventType::Disconnected)
            ==> nd == d && b.ff_view() == a.ff_view()
        &&& raw.event == RawEventType::Connected ==> {
            &&& nd.status_view() == Status::Connected
            &&& mapping_matches(nd.mapping_view(), connect_mapping(a.db_view(), d))
            &&& d.id_view() == usize::MAX ==> nd.id_view() == raw.id
                && b.ff_view() == a.ff_view().push(
                FfMessage::Open { id: raw.id },
            )
            &&& d.id_view() != usize::MAX ==> nd.id_view() == d.id_view()
                && b.ff_view() == a.ff_view()
        }
        &&& raw.event == RawEventType::Disconnected ==> {
            &&& nd.status_view() == Status::Disconnected
            &&& nd.mapping_view() == d.mapping_view()
            &&& nd.id_view() == d.id_view()
            &&& b.ff_view() == a.ff_view().push(
                FfMessage::Close { id: raw.id },
            )
        }
    })
}

/// What `next_filtered` gives from state `a` when the step leaves state
/// `b`: the event of `next_event_priv`, run through the default filters
/// against the devices of `b`.
pub open spec fn filtered_result(a: Gilrs, b: Gilrs) -> Option<Event> {
    match spec_priv_event(a) {
        Some(e) => Some(spec_default_filters(e, b.devices()[e.id as int])),
        None => None,
    }
}

/// One step of `next_filtered` from `a` to `b` with result `r`.
pub open spec fn filtered_step(a: Gilrs, b: Gilrs, r: Option<Event>) -> bool {
    priv_step(a, b, spec_priv_event(a)) && r == filtered_result(a, b)
}

/// A run of filtered steps through the states of `chain`, each of which
/// gave an event that the filters dropped.
pub open spec fn dropped_run(chain: Seq<Gilrs>) -> bool {
    forall|i: int|
        0 <= i < chain.len() - 1 ==> filtered_step(
            #[trigger] chain[i],
            chain[i + 1],
            filtered_result(chain[i], chain[i + 1]),
        ) && filtered_result(chain[i], chain[i + 1]) is Some && filtered_result(
            chain[i],
            chain[i + 1],
        )->Some_0.event == EventType::Dropped
}

/// The default filters in turn: dpad to buttons, jitter, deadzone; all read
/// device `d`.
pub open spec fn spec_default_filters(e: Event, d: Gamepad) -> Event {
    spec_deadzone(spec_jitter(spec_axis_dpad_to_button(e, d), d, JITTER_THRESHOLD), d)
}

/// The engine: the devices, the raw events that the platform handed in, the
/// companion events waiting to be reported, the frame counter, the mapping
/// texts and the settings.
#[derive(Debug)]
pub struct Gilrs {
    inner: platform::Gilrs,
    counter: u64,
    mappings: MappingDb,
    default_filters: bool,
    events: std::collections::VecDeque<Event>,
    raw_events: std::collections::VecDeque<RawEvent>,
    ff_messages: Vec<FfMessage>,
    axis_to_btn_pressed: i32,
    axis_to_btn_released: i32,
}

impl Gilrs {
    pub closed spec fn devices(&self) -> Seq<Gamepad> {
        self.inner.devices()
    }

    pub closed spec fn platform_view(&self) -> platform::Gilrs {
        self.inner
    }

    pub closed spec fn counter_view(&self) -> u64 {
        self.counter
    }

    pub closed spec fn db_view(&self) -> Seq<(u128, Seq<char>)> {
        self.mappings.view()
    }

    pub closed spec fn filters_view(&self) -> bool {
        self.default_filters
    }

    /// Companion events waiting to be reported.
    pub closed spec fn queue_view(&self) -> Seq<Event> {
        self.events@
    }

    /// Raw events waiting to be processed.
    pub closed spec fn raw_view(&self) -> Seq<RawEvent> {
        self.raw_events@
    }

    pub closed spec fn ff_view(&self) -> Seq<FfMessage> {
        self.ff_messages@
    }

    pub closed spec fn pressed_view(&self) -> i32 {
        self.axis_to_btn_pressed
    }

    pub closed spec fn released_view(&self) -> i32 {
        self.axis_to_btn_released
    }

    pub open spec fn wf(&self) -> bool {
        &&& self.platform_view().wf()
        &&& self.platform_view().devices() == self.devices()
        &&& crate::sdl::db_keys_unique(self.db_view())
        &&& self.counter_view() <= MAX_COUNTER
        &&& 0 <= self.released_view() < self.pressed_view() <= UNIT
        &&& forall|i: int|
            0 <= i < self.raw_view().len() ==> (#[trigger] self.raw_view()[i]).id < self.devices().len()
        &&& forall|i: int|
            0 <= i < self.queue_view().len() ==> (#[trigger] self.queue_view()[i]).id
                < self.devices().len()
    }

    /// Everything but the two queues, the devices and the force-feedback
    /// requests is as in `other`.
    pub open spec fn same_settings(&self, other: Gilrs) -> bool {
        &&& self.counter_view() == other.counter_view()
        &&& self.db_view() == other.db_view()
        &&& self.filters_view() == other.filters_view()
        &&& self.pressed_view() == other.pressed_view()
        &&& self.released_view() == other.released_view()
    }

    /// Hands in an event that the platform reported for a controller.
    pub fn push_raw(&mut self, info: ControllerInfo, event: RawEventType, time: u64)
        requires
            old(self).wf(),
            info.wf(),
        ensures
            final(self).wf(),
            final(self).same_settings(*old(self)),
            final(self).queue_view() == old(self).queue_view(),
            final(self).ff_view() == old(self).ff_view(),
            final(self).raw_view().len() == old(self).raw_view().len() + 1,
            final(self).raw_view().drop_last() == old(self).raw_view(),
            final(self).raw_view().last().event == event,
            final(self).raw_view().last().time == time,
            match old(self).platform_view().spec_find(info.non_roamable_id@) {
                Some(i) => final(self).raw_view().last().id == i,
                None => final(self).raw_view().last().id == old(self).devices().len(),
            },
    {
        let raw = self.inner.next_event(info, event, time);
        self.raw_events.push_back(raw);
        proof {
            assert(self.raw_view().drop_last() =~= old(self).raw_view());
        }
    }

    /// The next event before any filter: a waiting companion event first,
    /// else the semantic event of the next raw event.
    pub fn next_event_priv(&mut self) -> (r: Option<Event>)
        requires
            old(self).wf(),
        ensures
            final(self).wf(),
            priv_step(*old(self), *final(self), r),
    {
        match self.events.pop_front() {
            Some(ev) => {
                return Some(ev);
            },
            None => {},
        }
        let raw = match self.raw_events.pop_front() {
            Some(raw) => raw,
            None => {
                return None;
            },
        };
        let id = raw.id;
        let (event, companion) = match self.inner.gamepad(id) {
            Some(d) => d.interpret_raw(raw.event, self.axis_to_btn_pressed, self.axis_to_btn_released),
            None => (EventType::Dropped, None),
        };
        match companion {
            Some(c) => self.events.push_back(Event::new(id, c, raw.time)),
            None => {},
        }
        let ghost before = self.devices();
        match raw.event {
            RawEventType::Connected => {
                let mapping = match self.inner.gamepad(id) {
                    Some(d) => match self.mappings.get(d.uuid()) {
                        Some(text) => match parse_sdl_mapping(
                            text.as_str(),
                            d.as_inner().buttons(),
                            d.as_inner().axes(),
                        ) {
                            Ok(m) => m,
                            Err(_) => Mapping::new(),
                        },
                        None => Mapping::new(),
                    },
                    None => Mapping::new(),
                };
                let d = self.inner.gamepad_mut(id);
                d.status = Status::Connected;
                d.mapping = mapping;
                let fresh = d.id == usize::MAX;
                if fresh {
                    d.id = id;
                }
                if fresh {
                    self.ff_messages.push(FfMessage::Open { id });
                }
            },
            RawEventType::Disconnected => {
                let d = self.inner.gamepad_mut(id);
                d.status = Status::Disconnected;
                self.ff_messages.push(FfMessage::Close { id });
            },
            _ => {},
        }
        proof {
            assert forall|i: int| 0 <= i < self.devices().len() implies (#[trigger] self.devices()[i]).inner_view().id_view()
                == i && self.devices()[i].wf() by {
                if i != id {
                    assert(self.devices()[i] == before[i]);
                }
            }
        }
        proof {
            match companion {
                Some(c) => {
                    assert(self.queue_view() =~= seq![Event { id, event: c, time: raw.time }]);
                },
                None => {
                    assert(self.queue_view() =~= Seq::<Event>::empty());
                },
            }
        }
        Some(Event::new(id, event, raw.time))
    }
}

impl Gilrs {
    /// The device with id `id`.
    pub fn gamepad(&self, id: usize) -> (r: Option<&Gamepad>)
        requires
            self.wf(),
        ensures
            id < self.devices().len() ==> r == Some(&self.devices()[id as int]),
            id >= self.devices().len() ==> r is None,
    {
        self.inner.gamepad(id)
    }

    /// The device with id `id` where it is connected.
    pub fn connected_gamepad(&self, id: usize) -> (r: Option<&Gamepad>)
        requires
            self.wf(),
        ensures
            id < self.devices().len() && self.devices()[id as int].status_view() == Status::Connected
                ==> r == Some(&self.devices()[id as int]),
            !(id < self.devices().len() && self.devices()[id as int].status_view()
                == Status::Connected) ==> r is None,
    {
        match self.inner.gamepad(id) {
            Some(g) => if g.is_connected() {
                Some(g)
            } else {
                None
            },
            None => None,
        }
    }

    /// Number of devices seen: every id below it is in use.
    pub fn last_gamepad_hint(&self) -> (r: usize)
        requires
            self.wf(),
        ensures
            r == self.devices().len(),
    {
        self.inner.last_gamepad_hint()
    }

    /// The ids of the connected devices, in increasing order.
    pub fn gamepads(&self) -> (r: Vec<usize>)
        requires
            self.wf(),
        ensures
            forall|k: int| 0 <= k < r@.len() ==> #[trigger] r@[k] < self.devices().len(),
            forall|k: int|
                0 <= k < r@.len() ==> self.devices()[#[trigger] r@[k] as int].status_view()
                    == Status::Connected,
            forall|k: int, l: int| 0 <= k < l < r@.len() ==> r@[k] < r@[l],
            forall|i: int|
                0 <= i < self.devices().len() && self.devices()[i].status_view() == Status::Connected
                    ==> #[trigger] r@.contains(i as usize),
    {
        let n = self.inner.last_gamepad_hint();
        let mut ids: Vec<usize> = Vec::new();
        let mut i: usize = 0;
        while i < n
            invariant
                self.wf(),
                n == self.devices().len(),
                i <= n,
                forall|k: int| 0 <= k < ids@.len() ==> #[trigger] ids@[k] < i,
                forall|k: int|
                    0 <= k < ids@.len() ==> self.devices()[#[trigger] ids@[k] as int].status_view()
                        == Status::Connected,
                forall|k: int, l: int| 0 <= k < l < ids@.len() ==> ids@[k] < ids@[l],
                forall|j: int|
                    0 <= j < i && self.devices()[j].status_view() == Status::Connected
                        ==> #[trigger] ids@.contains(j as usize),
            decreases n - i,
        {
            match self.inner.gamepad(i) {
                Some(g) => if g.is_connected() {
                    let ghost old_ids = ids@;
                    ids.push(i);
                    proof {
                        assert(ids@[ids@.len() - 1] == i);
                        assert forall|j: int|
                            0 <= j < i + 1 && self.devices()[j].status_view() == Status::Connected
                                implies #[trigger] ids@.contains(j as usize) by {
                            if j == i {
                                assert(ids@[ids@.len() - 1] == j as usize);
                            } else {
                                assert(old_ids.contains(j as usize));
                                let w = choose|w: int| 0 <= w < old_ids.len() && old_ids[w] == j as usize;
                                assert(ids@[w] == old_ids[w]);
                            }
                        }
                    }
                },
                None => {},
            }
            i = i + 1;
        }
        ids
    }

    /// Hands out the force-feedback requests made so far.
    pub fn take_ff_messages(&mut self) -> (r: Vec<FfMessage>)
        requires
            old(self).wf(),
        ensures
            final(self).wf(),
            r@ == old(self).ff_view(),
            final(self).ff_view().len() == 0,
            final(self).same_settings(*old(self)),
            final(self).devices() == old(self).devices(),
            final(self).queue_view() == old(self).queue_view(),
            final(self).raw_view() == old(self).raw_view(),
    {
        let mut taken: Vec<FfMessage> = Vec::new();
        std::mem::swap(&mut taken, &mut self.ff_messages);
        taken
    }

    /// Records an event that was reported into the cached state of its
    /// device, at the current counter; nothing happens for a device that is
    /// not connected.
    pub fn update(&mut self, event: &Event)
        requires
            old(self).wf(),
        ensures
            final(self).wf(),
            final(self).same_settings(*old(self)),
            final(self).queue_view() == old(self).queue_view(),
            final(self).raw_view() == old(self).raw_view(),
            final(self).ff_view() == old(self).ff_view(),
            final(self).devices().len() == old(self).devices().len(),
            forall|j: int|
                0 <= j < old(self).devices().len() && j != event.id ==> final(self).devices()[j]
                    == old(self).devices()[j],
            !(event.id < old(self).devices().len() && old(self).devices()[event.id as int].status_view()
                == Status::Connected) ==> final(self).devices() == old(self).devices(),
            event.id < old(self).devices().len() && old(self).devices()[event.id as int].status_view()
                == Status::Connected ==> {
                let d = old(self).devices()[event.id as int];
                let nd = final(self).devices()[event.id as int];
                &&& nd.inner_view() == d.inner_view()
                &&& nd.status_view() == d.status_view()
                &&& nd.mapping_view() == d.mapping_view()
                &&& nd.id_view() == d.id_view()
                &&& forall|c: EvCode|
                    #[trigger] nd.state_view().btn(c) == d.state_view().committed_btn(
                        event.event,
                        old(self).counter_view(),
                        event.time,
                        c,
                    )
                &&& forall|c: EvCode|
                    #[trigger] nd.state_view().axis(c) == d.state_view().committed_axis(
                        event.event,
                        old(self).counter_view(),
                        event.time,
                        c,
                    )
            },
    {
        let counter = self.counter;
        let id = event.id;
        let connected = match self.inner.gamepad(id) {
            Some(g) => g.is_connected(),
            None => false,
        };
        if !connected {
            return;
        }
        let ghost before = self.devices();
        let d = self.inner.gamepad_mut(id);
        d.commit(event.event, counter, event.time);
        proof {
            assert forall|i: int| 0 <= i < self.devices().len() implies (#[trigger] self.devices()[i]).inner_view().id_view()
                == i && self.devices()[i].wf() by {
                if i != id {
                    assert(self.devices()[i] == before[i]);
                }
            }
        }
    }

    /// Ends a frame: the counter goes one up, or to 0 after its largest
    /// value.
    pub fn inc(&mut self)
        requires
            old(self).wf(),
        ensures
            final(self).wf(),
            final(self).counter_view() == next_counter(old(self).counter_view()),
            final(self).devices() == old(self).devices(),
            final(self).queue_view() == old(self).queue_view(),
            final(self).raw_view() == old(self).raw_view(),
            final(self).ff_view() == old(self).ff_view(),
            final(self).db_view() == old(self).db_view(),
    {
        self.counter = crate::state::counter_after(self.counter);
    }

    pub fn counter(&self) -> (r: u64)
        ensures
            r == self.counter_view(),
    {
        self.counter
    }

    pub fn reset_counter(&mut self)
        requires
            old(self).wf(),
        ensures
            final(self).wf(),
            final(self).counter_view() == 0,
            final(self).devices() == old(self).devices(),
            final(self).queue_view() == old(self).queue_view(),
            final(self).raw_view() == old(self).raw_view(),
            final(self).ff_view() == old(self).ff_view(),
            final(self).db_view() == old(self).db_view(),
    {
        self.counter = 0;
    }

    /// Sets the mapping of device `id`, refusing controls that SDL2 does not
    /// know (see `Gamepad::set_mapping_strict`).
    pub fn set_mapping_strict(&mut self, id: usize, mapping: &MappingData, name: Option<&str>) -> (r:
        Result<String, MappingError>)
        requires
            old(self).wf(),
            mapping.wf(),
        ensures
            final(self).wf(),
            final(self).same_settings(*old(self)),
            final(self).queue_view() == old(self).queue_view(),
            final(self).raw_view() == old(self).raw_view(),
            final(self).ff_view() == old(self).ff_view(),
            final(self).devices().len() == old(self).devices().len(),
            forall|j: int|
                0 <= j < old(self).devices().len() && j != id ==> final(self).devices()[j]
                    == old(self).devices()[j],
            id >= old(self).devices().len() ==> r == Err::<String, MappingError>(
                MappingError::NotConnected,
            ) && final(self).devices() == old(self).devices(),
            id < old(self).devices().len() && uses_extensions(*mapping) ==> r == Err::<
                String,
                MappingError,
            >(MappingError::NotSdl2Compatible) && final(self).devices() == old(self).devices(),
            id < old(self).devices().len() && !uses_extensions(*mapping) ==> set_mapping_done(
                old(self).devices()[id as int],
                final(self).devices()[id as int],
                *mapping,
                name,
                r,
            ),
    {
        if id >= self.inner.last_gamepad_hint() {
            return Err(MappingError::NotConnected);
        }
        let ghost before = self.devices();
        let d = self.inner.gamepad_mut(id);
        let r = d.set_mapping_strict(mapping, name);
        proof {
            assert forall|i: int| 0 <= i < self.devices().len() implies (#[trigger] self.devices()[i]).inner_view().id_view()
                == i && self.devices()[i].wf() by {
                if i != id {
                    assert(self.devices()[i] == before[i]);
                }
            }
        }
        r
    }

    /// Sets the mapping of device `id` (see `Gamepad::set_mapping`).
    pub fn set_mapping(&mut self, id: usize, mapping: &MappingData, name: Option<&str>) -> (r: Result<
        String,
        MappingError,
    >)
        requires
            old(self).wf(),
            mapping.wf(),
        ensures
            final(self).wf(),
            final(self).same_settings(*old(self)),
            final(self).queue_view() == old(self).queue_view(),
            final(self).raw_view() == old(self).raw_view(),
            final(self).ff_view() == old(self).ff_view(),
            final(self).devices().len() == old(self).devices().len(),
            forall|j: int|
                0 <= j < old(self).devices().len() && j != id ==> final(self).devices()[j]
                    == old(self).devices()[j],
            id >= old(self).devices().len() ==> r == Err::<String, MappingError>(
                MappingError::NotConnected,
            ) && final(self).devices() == old(self).devices(),
            id < old(self).devices().len() ==> set_mapping_done(
                old(self).devices()[id as int],
                final(self).devices()[id as int],
                *mapping,
                name,
                r,
            ),
    {
        if id >= self.inner.last_gamepad_hint() {
            return Err(MappingError::NotConnected);
        }
        let ghost before = self.devices();
        let d = self.inner.gamepad_mut(id);
        let r = d.set_mapping(mapping, name);
        proof {
            assert forall|i: int| 0 <= i < self.devices().len() implies (#[trigger] self.devices()[i]).inner_view().id_view()
                == i && self.devices()[i].wf() by {
                if i != id {
                    assert(self.devices()[i] == before[i]);
                }
            }
        }
        r
    }
}

impl Gilrs {
    /// A context with the default settings and no mapping texts.
    pub fn new(found: Vec<ControllerInfo>) -> (r: Gilrs)
        requires
            forall|i: int| 0 <= i < found@.len() ==> (#[trigger] found@[i]).wf(),
        ensures
            r.wf(),
            r.devices().len() == found@.len(),
            r.filters_view(),
            r.pressed_view() == DEFAULT_PRESSED,
            r.released_view() == DEFAULT_RELEASED,
    {
        GilrsBuilder::new().build(found)
    }

    /// One step of the default filters: the next event before any filter,
    /// run through the dpad, jitter and deadzone filters against the devices
    /// as that event left them. The result may be marked as dropped.
    pub fn next_filtered(&mut self) -> (r: Option<Event>)
        requires
            old(self).wf(),
        ensures
            final(self).wf(),
            final(self).same_settings(*old(self)),
            filtered_step(*old(self), *final(self), r),
            final(self).queue_view().len() + 2 * final(self).raw_view().len() + (if r is Some {
                1int
            } else {
                0
            }) <= old(self).queue_view().len() + 2 * old(self).raw_view().len(),
            match spec_priv_event(*old(self)) {
                Some(e) => e.id < final(self).devices().len() && r == Some(
                    spec_default_filters(e, final(self).devices()[e.id as int]),
                ),
                None => r is None && final(self).queue_view().len() == 0
                    && final(self).raw_view().len() == 0,
            },
    {
        match self.next_event_priv() {
            None => None,
            Some(ev) => {
                let jitter = Jitter::new();
                let ev = axis_dpad_to_button(ev, self);
                let ev = jitter.filter(ev, self);
                Some(deadzone(ev, self))
            },
        }
    }

    /// The next event for the caller. With the default filters on, this
    /// takes `next_filtered` steps until one gives an event that is not
    /// dropped, or nothing is left: the result is that of the last step, and
    /// every step before it gave a dropped event. Without them, this is
    /// `next_event_priv`.
    pub fn next_event(&mut self) -> (r: Option<Event>)
        requires
            old(self).wf(),
        ensures
            final(self).wf(),
            final(self).same_settings(*old(self)),
            r is None ==> final(self).queue_view().len() == 0 && final(self).raw_view().len() == 0,
            old(self).filters_view() ==> (r matches Some(e) ==> e.event != EventType::Dropped),
            old(self).filters_view() ==> exists|chain: Seq<Gilrs>|
                chain.len() >= 1 && chain[0] == *old(self) && dropped_run(chain) && filtered_step(
                    #[trigger] chain.last(),
                    *final(self),
                    r,
                ),
            !old(self).filters_view() ==> priv_step(*old(self), *final(self), r),
    {
        if !self.default_filters {
            return self.next_event_priv();
        }
        let ghost mut chain: Seq<Gilrs> = seq![*self];
        loop
            invariant
                self.wf(),
                self.same_settings(*old(self)),
                old(self).filters_view(),
                chain.len() >= 1,
                chain[0] == *old(self),
                chain.last() == *self,
                dropped_run(chain),
            decreases self.queue_view().len() + 2 * self.raw_view().len(),
        {
            let ghost prev = *self;
            match self.next_filtered() {
                None => {
                    proof {
                        assert(filtered_step(chain.last(), *self, None));
                    }
                    return None;
                },
                Some(ev) => {
                    if !ev.is_dropped() {
                        proof {
                            assert(filtered_step(chain.last(), *self, Some(ev)));
                        }
                        return Some(ev);
                    }
                    proof {
                        let next = chain.push(*self);
                        assert forall|i: int| 0 <= i < next.len() - 1 implies filtered_step(
                            #[trigger] next[i],
                            next[i + 1],
                            filtered_result(next[i], next[i + 1]),
                        ) && filtered_result(next[i], next[i + 1]) is Some && filtered_result(
                            next[i],
                            next[i + 1],
                        )->Some_0.event == EventType::Dropped by {
                            if i < chain.len() - 1 {
                                assert(next[i] == chain[i]);
                                assert(next[i + 1] == chain[i + 1]);
                            } else {
                                assert(next[i] == prev);
                                assert(next[i + 1] == *self);
                            }
                        }
                        chain = next;
                    }
                },
            }
        }
    }
}

/// Open requests for the devices below `n` that support force feedback, in
/// order of id.
pub open spec fn ff_opens(devs: Seq<Gamepad>, n: int) -> Seq<FfMessage>
    decreases n,
{
    if n <= 0 {
        seq![]
    } else {
        let d = devs[n - 1].inner_view();
        ff_opens(devs, n - 1) + if d.is_standard_view() && d.ff_motors_view() {
            seq![FfMessage::Open { id: (n - 1) as usize }]
        } else {
            seq![]
        }
    }
}

proof fn lemma_ff_opens_same(a: Seq<Gamepad>, b: Seq<Gamepad>, n: int)
    requires
        n <= a.len(),
        n <= b.len(),
        forall|j: int| 0 <= j < n ==> (#[trigger] a[j]).inner_view() == b[j].inner_view(),
    ensures
        ff_opens(a, n) == ff_opens(b, n),
    decreases n,
{
    if n > 0 {
        lemma_ff_opens_same(a, b, n - 1);
    }
}

/// Settings of a context, before it is built.
#[derive(Clone, Debug)]
pub struct GilrsBuilder {
    mappings: MappingDb,
    default_filters: bool,
    axis_to_btn_pressed: i32,
    axis_to_btn_released: i32,
}

impl GilrsBuilder {
    pub closed spec fn db_view(&self) -> Seq<(u128, Seq<char>)> {
        self.mappings.view()
    }

    pub closed spec fn filters_view(&self) -> bool {
        self.default_filters
    }

    pub closed spec fn pressed_view(&self) -> i32 {
        self.axis_to_btn_pressed
    }

    pub closed spec fn released_view(&self) -> i32 {
        self.axis_to_btn_released
    }

    pub open spec fn wf(&self) -> bool {
        &&& crate::sdl::db_keys_unique(self.db_view())
        &&& 0 <= self.released_view() < self.pressed_view() <= UNIT
    }

    /// Default settings: filters on, press at 0.75, release at 0.65, no
    /// mapping texts.
    pub fn new() -> (r: GilrsBuilder)
        ensures
            r.wf(),
            r.db_view().len() == 0,
            r.filters_view(),
            r.pressed_view() == DEFAULT_PRESSED,
            r.released_view() == DEFAULT_RELEASED,
    {
        GilrsBuilder {
            mappings: MappingDb::new(),
            default_filters: true,
            axis_to_btn_pressed: DEFAULT_PRESSED,
            axis_to_btn_released: DEFAULT_RELEASED,
        }
    }

    /// Whether the built context runs the default filters.
    pub fn with_default_filters(self, default_filters: bool) -> (r: GilrsBuilder)
        requires
            self.wf(),
        ensures
            r.wf(),
            r.filters_view() == default_filters,
            r.db_view() == self.db_view(),
            r.pressed_view() == self.pressed_view(),
            r.released_view() == self.released_view(),
    {
        GilrsBuilder { default_filters, ..self }
    }

    /// Adds the mapping lines of `mappings`.
    pub fn add_mappings(self, mappings: &str) -> (r: GilrsBuilder)
        requires
            self.wf(),
        ensures
            r.wf(),
            r.db_view() == crate::sdl::db_add_lines(
                self.db_view(),
                crate::sdl::split(mappings@, '\n'),
                crate::sdl::split(mappings@, '\n').len() as int,
            ),
            r.filters_view() == self.filters_view(),
            r.pressed_view() == self.pressed_view(),
            r.released_view() == self.released_view(),
    {
        let mut b = self;
        b.mappings.insert(mappings);
        b
    }

    /// Sets the values at which an axis that drives a button presses and
    /// releases it.
    pub fn set_axis_to_btn(self, pressed: i32, released: i32) -> (r: GilrsBuilder)
        requires
            self.wf(),
            0 <= released < pressed <= UNIT,
        ensures
            r.wf(),
            r.pressed_view() == pressed,
            r.released_view() == released,
            r.db_view() == self.db_view(),
            r.filters_view() == self.filters_view(),
    {
        GilrsBuilder { axis_to_btn_pressed: pressed, axis_to_btn_released: released, ..self }
    }

    /// Builds the context over the controllers found at start: each gets
    /// its position as id, and each that supports force feedback gets an
    /// open request.
    pub fn build(self, found: Vec<ControllerInfo>) -> (r: Gilrs)
        requires
            self.wf(),
            forall|i: int| 0 <= i < found@.len() ==> (#[trigger] found@[i]).wf(),
        ensures
            r.wf(),
            r.devices().len() == found@.len(),
            forall|i: int|
                0 <= i < found@.len() ==> (#[trigger] r.devices()[i]).status_view()
                    == Status::Connected && r.devices()[i].id_view() == i,
            r.db_view() == self.db_view(),
            r.filters_view() == self.filters_view(),
            r.pressed_view() == self.pressed_view(),
            r.released_view() == self.released_view(),
            r.counter_view() == 0,
            r.queue_view().len() == 0,
            r.raw_view().len() == 0,
            r.ff_view() == ff_opens(r.devices(), r.devices().len() as int),
    {
        let mut inner = platform::Gilrs::new(found);
        let mut ff_messages: Vec<FfMessage> = Vec::new();
        let n = inner.last_gamepad_hint();
        let mut i: usize = 0;
        while i < n
            invariant
                i <= n == inner.devices().len() == found@.len(),
                inner.wf(),
                forall|j: int|
                    0 <= j < n ==> (#[trigger] inner.devices()[j]).status_view() == Status::Connected,
                forall|j: int| 0 <= j < i ==> (#[trigger] inner.devices()[j]).id_view() == j,
                ff_messages@ == ff_opens(inner.devices(), i as int),
            decreases n - i,
        {
            let ghost before = inner.devices();
            let d = inner.gamepad_mut(i);
            d.id = i;
            let supported = d.is_ff_supported();
            proof {
                assert forall|j: int| 0 <= j < inner.devices().len() implies (#[trigger] inner.devices()[j]).inner_view().id_view()
                    == j && inner.devices()[j].wf() by {
                    if j != i {
                        assert(inner.devices()[j] == before[j]);
                    }
                }
            }
            proof {
                lemma_ff_opens_same(before, inner.devices(), i as int);
            }
            if supported {
                ff_messages.push(FfMessage::Open { id: i });
            }
            i = i + 1;
        }
        Gilrs {
            inner,
            counter: 0,
            mappings: self.mappings,
            default_filters: self.default_filters,
            events: std::collections::VecDeque::new(),
            raw_events: std::collections::VecDeque::new(),
            ff_messages,
            axis_to_btn_pressed: self.axis_to_btn_pressed,
            axis_to_btn_released: self.axis_to_btn_released,
        }
    }
}

} // verus!
