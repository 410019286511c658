//! Filters run on semantic events before the caller sees them. Each takes
//! an event and gives it back, rewritten, or marked as dropped.

use vstd::prelude::*;
use crate::axis::{apply_deadzone, jitter_passes, spec_apply_deadzone, spec_jitter_passes, DEFAULT_DEADZONE, JITTER_THRESHOLD};
use crate::ev::{Axis, AxisOrBtn, Button, Event, EventType, UNIT};
use crate::gamepad::{Gamepad, Gilrs};

verus! {

/// Dpad axis value beyond which a direction counts as pressed: 0.5.
pub const DPAD_THRESHOLD: i32 = 500_000;

/// Whether none of the four dpad buttons has a code of its own.
pub open spec fn dpad_unmapped(d: Gamepad) -> bool {
    &&& d.mapping_view().spec_map_rev(AxisOrBtn::Btn(Button::DPadUp)) is None
    &&& d.mapping_view().spec_map_rev(AxisOrBtn::Btn(Button::DPadDown)) is None
    &&& d.mapping_view().spec_map_rev(AxisOrBtn::Btn(Button::DPadLeft)) is None
    &&& d.mapping_view().spec_map_rev(AxisOrBtn::Btn(Button::DPadRight)) is None
}

/// Event `ev` with its type replaced by `e`.
pub open spec fn with_event(ev: Event, e: EventType) -> Event {
    Event { event: e, ..ev }
}

/// A dpad axis turned into button edges: past the threshold one way or the
/// other presses that direction; back inside it releases the direction
/// that was held; anything else is dropped.
pub open spec fn spec_dpad_event(ev: Event, d: Gamepad, positive: Button, negative: Button, v: i32) -> Event {
    if v > DPAD_THRESHOLD {
        with_event(ev, EventType::ButtonPressed(positive, positive.spec_to_nec()->Some_0))
    } else if v < -DPAD_THRESHOLD {
        with_event(ev, EventType::ButtonPressed(negative, negative.spec_to_nec()->Some_0))
    } else if d.spec_is_pressed(positive) {
        with_event(ev, EventType::ButtonReleased(positive, positive.spec_to_nec()->Some_0))
    } else if d.spec_is_pressed(negative) {
        with_event(ev, EventType::ButtonReleased(negative, negative.spec_to_nec()->Some_0))
    } else {
        with_event(ev, EventType::Dropped)
    }
}

/// What the dpad filter makes of an event of device `d`.
pub open spec fn spec_axis_dpad_to_button(ev: Event, d: Gamepad) -> Event {
    match ev.event {
        EventType::AxisChanged(Axis::DPadX, v, _) => if dpad_unmapped(d) {
            spec_dpad_event(ev, d, Button::DPadRight, Button::DPadLeft, v)
        } else {
            ev
        },
        EventType::AxisChanged(Axis::DPadY, v, _) => if dpad_unmapped(d) {
            spec_dpad_event(ev, d, Button::DPadUp, Button::DPadDown, v)
        } else {
            ev
        },
        _ => ev,
    }
}

fn dpad_event(ev: Event, d: &Gamepad, positive: Button, negative: Button, v: i32) -> (r: Event)
    requires
        d.wf(),
        positive != Button::Unknown,
        negative != Button::Unknown,
    ensures
        r == spec_dpad_event(ev, *d, positive, negative, v),
{
    let pos_code = match positive.to_nec() {
        Some(c) => c,
        None => {
            return ev;
        },
    };
    let neg_code = match negative.to_nec() {
        Some(c) => c,
        None => {
            return ev;
        },
    };
    if v > DPAD_THRESHOLD {
        Event { event: EventType::ButtonPressed(positive, pos_code), ..ev }
    } else if v < -DPAD_THRESHOLD {
        Event { event: EventType::ButtonPressed(negative, neg_code), ..ev }
    } else if d.is_pressed(positive) {
        Event { event: EventType::ButtonReleased(positive, pos_code), ..ev }
    } else if d.is_pressed(negative) {
        Event { event: EventType::ButtonReleased(negative, neg_code), ..ev }
    } else {
        ev.drop_event()
    }
}

/// Turns dpad axes into dpad button presses and releases, for devices
/// whose dpad buttons have no codes of their own.
pub fn axis_dpad_to_button(ev: Event, gilrs: &Gilrs) -> (r: Event)
    requires
        gilrs.wf(),
    ensures
        ev.id < gilrs.devices().len() ==> r == spec_axis_dpad_to_button(ev, gilrs.devices()[ev.id as int]),
        ev.id >= gilrs.devices().len() ==> r == ev,
{
    let d = match gilrs.gamepad(ev.id) {
        Some(d) => d,
        None => {
            return ev;
        },
    };
    let unmapped = d.button_code(Button::DPadUp).is_none() && d.button_code(Button::DPadDown).is_none()
        && d.button_code(Button::DPadLeft).is_none() && d.button_code(Button::DPadRight).is_none();
    match ev.event {
        EventType::AxisChanged(Axis::DPadX, v, _) => if unmapped {
            dpad_event(ev, d, Button::DPadRight, Button::DPadLeft, v)
        } else {
            ev
        },
        EventType::AxisChanged(Axis::DPadY, v, _) => if unmapped {
            dpad_event(ev, d, Button::DPadUp, Button::DPadDown, v)
        } else {
            ev
        },
        _ => ev,
    }
}

/// Drops axis changes smaller than a threshold.
#[derive(Copy, Clone, Debug, PartialEq, Eq, Structural)]
pub struct Jitter {
    pub threshold: i32,
}

/// What the jitter filter makes of an event of device `d`: an axis change
/// that moved less than the threshold from the cached value is dropped.
pub open spec fn spec_jitter(ev: Event, d: Gamepad, threshold: i32) -> Event {
    match ev.event {
        EventType::AxisChanged(_, v, nec) => if spec_jitter_passes(
            v as int,
            d.state_view().spec_value(nec) as int,
            threshold as int,
        ) {
            ev
        } else {
            with_event(ev, EventType::Dropped)
        },
        _ => ev,
    }
}

impl Jitter {
    /// The filter with the default threshold, 0.01.
    pub fn new() -> (r: Jitter)
        ensures
            r.threshold == JITTER_THRESHOLD,
    {
        Jitter { threshold: JITTER_THRESHOLD }
    }

    pub fn filter(&self, ev: Event, gilrs: &Gilrs) -> (r: Event)
        requires
            gilrs.wf(),
        ensures
            ev.id < gilrs.devices().len() ==> r == spec_jitter(
                ev,
                gilrs.devices()[ev.id as int],
                self.threshold,
            ),
            ev.id >= gilrs.devices().len() ==> r == ev,
    {
        let d = match gilrs.gamepad(ev.id) {
            Some(d) => d,
            None => {
                return ev;
            },
        };
        match ev.event {
            EventType::AxisChanged(_, v, nec) => {
                let last = d.state().value(nec);
                if jitter_passes(v, last, self.threshold) {
                    ev
                } else {
                    ev.drop_event()
                }
            },
            _ => ev,
        }
    }
}

/// A value held to `[-UNIT, UNIT]`.
pub open spec fn clamp_unit(v: i32) -> int {
    if v < -UNIT {
        -UNIT
    } else if v > UNIT {
        UNIT as int
    } else {
        v as int
    }
}

/// What the deadzone filter makes of an event of device `d`: an axis value
/// has the deadzone of its native axis applied (0.1 where the axis gives
/// none).
pub open spec fn spec_deadzone(ev: Event, d: Gamepad) -> Event {
    match ev.event {
        EventType::AxisChanged(a, v, nec) => {
            let dz = match d.spec_deadzone(nec) {
                Some(z) => z,
                None => DEFAULT_DEADZONE as int,
            };
            with_event(
                ev,
                EventType::AxisChanged(a, spec_apply_deadzone(clamp_unit(v), dz) as i32, nec),
            )
        },
        _ => ev,
    }
}

pub fn deadzone(ev: Event, gilrs: &Gilrs) -> (r: Event)
    requires
        gilrs.wf(),
    ensures
        ev.id < gilrs.devices().len() ==> r == spec_deadzone(ev, gilrs.devices()[ev.id as int]),
        ev.id >= gilrs.devices().len() ==> r == ev,
{
    let d = match gilrs.gamepad(ev.id) {
        Some(d) => d,
        None => {
            return ev;
        },
    };
    match ev.event {
        EventType::AxisChanged(a, v, nec) => {
            let dz = match d.deadzone(nec) {
                Some(z) => z,
                None => DEFAULT_DEADZONE,
            };
            let v = if v < -UNIT {
                -UNIT
            } else if v > UNIT {
                UNIT
            } else {
                v
            };
            Event { event: EventType::AxisChanged(a, apply_deadzone(v, dz), nec), ..ev }
        },
        _ => ev,
    }
}

} // verus!
