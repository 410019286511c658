//! Semantic controls and the events of the engine.
//!
//! Normalized values are fixed-point integers: `UNIT` stands for 1.0, so an
//! axis value lies in `[-UNIT, UNIT]` (or `[0, UNIT]`) and a button value in
//! `[0, UNIT]`.

use vstd::prelude::*;
use crate::code::{
    EvCode, EvCodeKind, BTN_C, BTN_DPAD_DOWN, BTN_DPAD_LEFT, BTN_DPAD_RIGHT, BTN_DPAD_UP, BTN_EAST,
    BTN_LT, BTN_LT2, BTN_LTHUMB, BTN_MODE, BTN_NORTH, BTN_RT, BTN_RT2, BTN_RTHUMB, BTN_SELECT,
    BTN_SOUTH, BTN_START, BTN_WEST, BTN_Z,
};

verus! {

/// The fixed-point value of 1.0.
pub const UNIT: i32 = 1_000_000;

/// Number of semantic buttons, `Unknown` included.
pub const NUM_BUTTONS: usize = 20;

/// Number of semantic axes, `Unknown` included.
pub const NUM_AXES: usize = 9;

/// Canonical buttons.
#[derive(Copy, Clone, Debug, PartialEq, Eq, Hash, Structural)]
pub enum Button {
    South,
    East,
    North,
    West,
    C,
    Z,
    LeftTrigger,
    LeftTrigger2,
    RightTrigger,
    RightTrigger2,
    Select,
    Start,
    Mode,
    LeftThumb,
    RightThumb,
    DPadUp,
    DPadDown,
    DPadLeft,
    DPadRight,
    Unknown,
}

/// Canonical axes.
#[derive(Copy, Clone, Debug, PartialEq, Eq, Hash, Structural)]
pub enum Axis {
    LeftStickX,
    LeftStickY,
    LeftZ,
    RightStickX,
    RightStickY,
    RightZ,
    DPadX,
    DPadY,
    Unknown,
}

/// A semantic button or axis.
#[derive(Copy, Clone, Debug, PartialEq, Eq, Hash, Structural)]
pub enum AxisOrBtn {
    Axis(Axis),
    Btn(Button),
}

impl Button {
    /// The button at position `i` of the fixed order.
    pub open spec fn at(i: int) -> Button {
        if i == 0 {
            Button::South
        } else if i == 1 {
            Button::East
        } else if i == 2 {
            Button::North
        } else if i == 3 {
            Button::West
        } else if i == 4 {
            Button::C
        } else if i == 5 {
            Button::Z
        } else if i == 6 {
            Button::LeftTrigger
        } else if i == 7 {
            Button::LeftTrigger2
        } else if i == 8 {
            Button::RightTrigger
        } else if i == 9 {
            Button::RightTrigger2
        } else if i == 10 {
            Button::Select
        } else if i == 11 {
            Button::Start
        } else if i == 12 {
            Button::Mode
        } else if i == 13 {
            Button::LeftThumb
        } else if i == 14 {
            Button::RightThumb
        } else if i == 15 {
            Button::DPadUp
        } else if i == 16 {
            Button::DPadDown
        } else if i == 17 {
            Button::DPadLeft
        } else if i == 18 {
            Button::DPadRight
        } else {
            Button::Unknown
        }
    }

    /// Position of the button in the fixed order of buttons.
    pub open spec fn ord(self) -> nat {
        match self {
            Button::South => 0,
            Button::East => 1,
            Button::North => 2,
            Button::West => 3,
            Button::C => 4,
            Button::Z => 5,
            Button::LeftTrigger => 6,
            Button::LeftTrigger2 => 7,
            Button::RightTrigger => 8,
            Button::RightTrigger2 => 9,
            Button::Select => 10,
            Button::Start => 11,
            Button::Mode => 12,
            Button::LeftThumb => 13,
            Button::RightThumb => 14,
            Button::DPadUp => 15,
            Button::DPadDown => 16,
            Button::DPadLeft => 17,
            Button::DPadRight => 18,
            Button::Unknown => 19,
        }
    }

    pub fn ordinal(self) -> (r: usize)
        ensures
            r == self.ord(),
    {
        match self {
            Button::South => 0,
            Button::East => 1,
            Button::North => 2,
            Button::West => 3,
            Button::C => 4,
            Button::Z => 5,
            Button::LeftTrigger => 6,
            Button::LeftTrigger2 => 7,
            Button::RightTrigger => 8,
            Button::RightTrigger2 => 9,
            Button::Select => 10,
            Button::Start => 11,
            Button::Mode => 12,
            Button::LeftThumb => 13,
            Button::RightThumb => 14,
            Button::DPadUp => 15,
            Button::DPadDown => 16,
            Button::DPadLeft => 17,
            Button::DPadRight => 18,
            Button::Unknown => 19,
        }
    }

    pub fn from_ordinal(i: usize) -> (r: Button)
        requires
            i < NUM_BUTTONS,
        ensures
            r.ord() == i,
            r == Button::at(i as int),
    {
        match i {
            0 => Button::South,
            1 => Button::East,
            2 => Button::North,
            3 => Button::West,
            4 => Button::C,
            5 => Button::Z,
            6 => Button::LeftTrigger,
            7 => Button::LeftTrigger2,
            8 => Button::RightTrigger,
            9 => Button::RightTrigger2,
            10 => Button::Select,
            11 => Button::Start,
            12 => Button::Mode,
            13 => Button::LeftThumb,
            14 => Button::RightThumb,
            15 => Button::DPadUp,
            16 => Button::DPadDown,
            17 => Button::DPadLeft,
            18 => Button::DPadRight,
            _ => Button::Unknown,
        }
    }

    /// The native code that a device with the standard layout reports for
    /// the button, if it has one.
    pub open spec fn spec_to_nec(self) -> Option<EvCode> {
        match self {
            Button::South => Some(EvCode { kind: EvCodeKind::Button, index: BTN_SOUTH }),
            Button::East => Some(EvCode { kind: EvCodeKind::Button, index: BTN_EAST }),
            Button::North => Some(EvCode { kind: EvCodeKind::Button, index: BTN_NORTH }),
            Button::West => Some(EvCode { kind: EvCodeKind::Button, index: BTN_WEST }),
            Button::C => Some(EvCode { kind: EvCodeKind::Button, index: BTN_C }),
            Button::Z => Some(EvCode { kind: EvCodeKind::Button, index: BTN_Z }),
            Button::LeftTrigger => Some(EvCode { kind: EvCodeKind::Button, index: BTN_LT }),
            Button::LeftTrigger2 => Some(EvCode { kind: EvCodeKind::Button, index: BTN_LT2 }),
            Button::RightTrigger => Some(EvCode { kind: EvCodeKind::Button, index: BTN_RT }),
            Button::RightTrigger2 => Some(EvCode { kind: EvCodeKind::Button, index: BTN_RT2 }),
            Button::Select => Some(EvCode { kind: EvCodeKind::Button, index: BTN_SELECT }),
            Button::Start => Some(EvCode { kind: EvCodeKind::Button, index: BTN_START }),
            Button::Mode => Some(EvCode { kind: EvCodeKind::Button, index: BTN_MODE }),
            Button::LeftThumb => Some(EvCode { kind: EvCodeKind::Button, index: BTN_LTHUMB }),
            Button::RightThumb => Some(EvCode { kind: EvCodeKind::Button, index: BTN_RTHUMB }),
            Button::DPadUp => Some(EvCode { kind: EvCodeKind::Button, index: BTN_DPAD_UP }),
            Button::DPadDown => Some(EvCode { kind: EvCodeKind::Button, index: BTN_DPAD_DOWN }),
            Button::DPadLeft => Some(EvCode { kind: EvCodeKind::Button, index: BTN_DPAD_LEFT }),
            Button::DPadRight => Some(EvCode { kind: EvCodeKind::Button, index: BTN_DPAD_RIGHT }),
            Button::Unknown => None,
        }
    }

    pub fn to_nec(self) -> (r: Option<EvCode>)
        ensures
            r == self.spec_to_nec(),
    {
        let index: u32 = match self {
            Button::South => BTN_SOUTH,
            Button::East => BTN_EAST,
            Button::North => BTN_NORTH,
            Button::West => BTN_WEST,
            Button::C => BTN_C,
            Button::Z => BTN_Z,
            Button::LeftTrigger => BTN_LT,
            Button::LeftTrigger2 => BTN_LT2,
            Button::RightTrigger => BTN_RT,
            Button::RightTrigger2 => BTN_RT2,
            Button::Select => BTN_SELECT,
            Button::Start => BTN_START,
            Button::Mode => BTN_MODE,
            Button::LeftThumb => BTN_LTHUMB,
            Button::RightThumb => BTN_RTHUMB,
            Button::DPadUp => BTN_DPAD_UP,
            Button::DPadDown => BTN_DPAD_DOWN,
            Button::DPadLeft => BTN_DPAD_LEFT,
            Button::DPadRight => BTN_DPAD_RIGHT,
            Button::Unknown => {
                return None;
            },
        };
        Some(EvCode::new(EvCodeKind::Button, index))
    }
}

impl Axis {
    /// The axis at position `i` of the fixed order.
    pub open spec fn at(i: int) -> Axis {
        if i == 0 {
            Axis::LeftStickX
        } else if i == 1 {
            Axis::LeftStickY
        } else if i == 2 {
            Axis::LeftZ
        } else if i == 3 {
            Axis::RightStickX
        } else if i == 4 {
            Axis::RightStickY
        } else if i == 5 {
            Axis::RightZ
        } else if i == 6 {
            Axis::DPadX
        } else if i == 7 {
            Axis::DPadY
        } else {
            Axis::Unknown
        }
    }

    /// Position of the axis in the fixed order of axes.
    pub open spec fn ord(self) -> nat {
        match self {
            Axis::LeftStickX => 0,
            Axis::LeftStickY => 1,
            Axis::LeftZ => 2,
            Axis::RightStickX => 3,
            Axis::RightStickY => 4,
            Axis::RightZ => 5,
            Axis::DPadX => 6,
            Axis::DPadY => 7,
            Axis::Unknown => 8,
        }
    }

    pub fn ordinal(self) -> (r: usize)
        ensures
            r == self.ord(),
    {
        match self {
            Axis::LeftStickX => 0,
            Axis::LeftStickY => 1,
            Axis::LeftZ => 2,
            Axis::RightStickX => 3,
            Axis::RightStickY => 4,
            Axis::RightZ => 5,
            Axis::DPadX => 6,
            Axis::DPadY => 7,
            Axis::Unknown => 8,
        }
    }

    pub fn from_ordinal(i: usize) -> (r: Axis)
        requires
            i < NUM_AXES,
        ensures
            r.ord() == i,
            r == Axis::at(i as int),
    {
        match i {
            0 => Axis::LeftStickX,
            1 => Axis::LeftStickY,
            2 => Axis::LeftZ,
            3 => Axis::RightStickX,
            4 => Axis::RightStickY,
            5 => Axis::RightZ,
            6 => Axis::DPadX,
            7 => Axis::DPadY,
            _ => Axis::Unknown,
        }
    }
}

/// Low-level event of a device, as the platform reports it.
#[derive(Copy, Clone, Debug, PartialEq, Eq, Structural)]
pub enum RawEventType {
    ButtonPressed(EvCode),
    ButtonReleased(EvCode),
    /// A raw integer reading and the code of the axis.
    AxisValueChanged(i32, EvCode),
    Connected,
    Disconnected,
}

/// A low-level event of the device with id `id`, at `time` (nanoseconds).
#[derive(Copy, Clone, Debug, PartialEq, Eq, Structural)]
pub struct RawEvent {
    pub id: usize,
    pub event: RawEventType,
    pub time: u64,
}

/// Semantic event. Values are fixed-point (see `UNIT`).
#[derive(Copy, Clone, Debug, PartialEq, Eq, Structural)]
pub enum EventType {
    ButtonPressed(Button, EvCode),
    ButtonRepeated(Button, EvCode),
    ButtonReleased(Button, EvCode),
    ButtonChanged(Button, i32, EvCode),
    AxisChanged(Axis, i32, EvCode),
    Connected,
    Disconnected,
    /// An event that a filter dropped.
    Dropped,
}

/// A semantic event of the device with id `id`, at `time` (nanoseconds).
#[derive(Copy, Clone, Debug, PartialEq, Eq, Structural)]
pub struct Event {
    pub id: usize,
    pub event: EventType,
    pub time: u64,
}

impl Event {
    pub fn new(id: usize, event: EventType, time: u64) -> (r: Event)
        ensures
            r == (Event { id, event, time }),
    {
        Event { id, event, time }
    }

    pub fn is_dropped(&self) -> (r: bool)
        ensures
            r == (self.event == EventType::Dropped),
    {
        match self.event {
            EventType::Dropped => true,
            _ => false,
        }
    }

    /// The same event, marked as dropped.
    pub fn drop_event(self) -> (r: Event)
        ensures
            r == (Event { event: EventType::Dropped, ..self }),
    {
        Event { event: EventType::Dropped, ..self }
    }
}

} // verus!
