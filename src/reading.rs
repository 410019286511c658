//! Readings of a device and the events that the difference of two
//! consecutive readings gives.
//!
//! Axis values in a reading are already integers: the platform layer scales
//! them once, when it reads the device.

use vstd::prelude::*;
use crate::code::{
    EvCode, EvCodeKind, AXIS_LSTICKX, AXIS_LSTICKY, AXIS_LT2, AXIS_RSTICKX, AXIS_RSTICKY, AXIS_RT2,
    BTN_DPAD_DOWN, BTN_DPAD_LEFT, BTN_DPAD_RIGHT, BTN_DPAD_UP, BTN_EAST, BTN_LT, BTN_LTHUMB,
    BTN_NORTH, BTN_RT, BTN_RTHUMB, BTN_SELECT, BTN_SOUTH, BTN_START, BTN_WEST,
};
use crate::ev::RawEventType;

verus! {

/// Position of a directional switch (hat).
#[derive(Copy, Clone, Debug, PartialEq, Eq, Structural)]
pub enum SwitchPosition {
    Center,
    Up,
    UpRight,
    Right,
    DownRight,
    Down,
    DownLeft,
    Left,
    UpLeft,
}

/// The two synthetic axes (x, y) of a switch position, each in -1..=1.
pub open spec fn switch_direction(p: SwitchPosition) -> (i32, i32) {
    match p {
        SwitchPosition::Up => (0, 1),
        SwitchPosition::Down => (0, -1i32),
        SwitchPosition::Right => (1, 0),
        SwitchPosition::Left => (-1i32, 0),
        SwitchPosition::UpLeft => (-1i32, 1),
        SwitchPosition::UpRight => (1, 1),
        SwitchPosition::DownLeft => (-1i32, -1i32),
        SwitchPosition::DownRight => (1, -1i32),
        SwitchPosition::Center => (0, 0),
    }
}

/// Treats a switch as two axes, like a directional pad.
pub fn direction_from_switch(p: SwitchPosition) -> (r: (i32, i32))
    ensures
        r == switch_direction(p),
{
    match p {
        SwitchPosition::Up => (0, 1),
        SwitchPosition::Down => (0, -1i32),
        SwitchPosition::Right => (1, 0),
        SwitchPosition::Left => (-1i32, 0),
        SwitchPosition::UpLeft => (-1i32, 1),
        SwitchPosition::UpRight => (1, 1),
        SwitchPosition::DownLeft => (-1i32, -1i32),
        SwitchPosition::DownRight => (1, -1i32),
        SwitchPosition::Center => (0, 0),
    }
}

/// Reading of a controller without a standard layout.
#[derive(Clone, Debug)]
pub struct RawGamepadReading {
    pub axes: Vec<i32>,
    pub buttons: Vec<bool>,
    pub switches: Vec<SwitchPosition>,
    pub time: u64,
}

/// Reading of a controller with the standard gamepad layout. `buttons` is a
/// bit set (see `gamepad_button`).
#[derive(Copy, Clone, Debug, PartialEq, Eq, Structural)]
pub struct GamepadReading {
    pub time: u64,
    pub buttons: u32,
    pub left_trigger: i32,
    pub right_trigger: i32,
    pub left_thumbstick_x: i32,
    pub left_thumbstick_y: i32,
    pub right_thumbstick_x: i32,
    pub right_thumbstick_y: i32,
}

/// A reading of either class of controller.
#[derive(Clone, Debug)]
pub enum Reading {
    Raw(RawGamepadReading),
    Gamepad(GamepadReading),
}

/// The device changed its class between two readings.
#[derive(Copy, Clone, Debug, PartialEq, Eq, Structural)]
pub enum ReadingError {
    ClassChanged { was_gamepad: bool, is_gamepad: bool },
}

pub open spec fn axis_code(i: int) -> EvCode {
    EvCode { kind: EvCodeKind::Axis, index: i as u32 }
}

pub open spec fn button_code(i: int) -> EvCode {
    EvCode { kind: EvCodeKind::Button, index: i as u32 }
}

pub open spec fn switch_code(i: int) -> EvCode {
    EvCode { kind: EvCodeKind::Switch, index: i as u32 }
}

/// Events for the axes below `n` whose value differs.
pub open spec fn axis_changes(old: Seq<i32>, new: Seq<i32>, n: int) -> Seq<RawEventType>
    decreases n,
{
    if n <= 0 {
        seq![]
    } else {
        let prev = axis_changes(old, new, n - 1);
        let i = n - 1;
        if i < old.len() && old[i] == new[i] {
            prev
        } else {
            prev.push(RawEventType::AxisValueChanged(new[i], axis_code(i)))
        }
    }
}

/// Events for the buttons below `n` whose state differs.
pub open spec fn button_changes(old: Seq<bool>, new: Seq<bool>, n: int) -> Seq<RawEventType>
    decreases n,
{
    if n <= 0 {
        seq![]
    } else {
        let prev = button_changes(old, new, n - 1);
        let i = n - 1;
        if i < old.len() && old[i] == new[i] {
            prev
        } else if new[i] {
            prev.push(RawEventType::ButtonPressed(button_code(i)))
        } else {
            prev.push(RawEventType::ButtonReleased(button_code(i)))
        }
    }
}

/// Position of switch `i` in `s`; centered where `s` has none.
pub open spec fn switch_at(s: Seq<SwitchPosition>, i: int) -> SwitchPosition {
    if 0 <= i < s.len() {
        s[i]
    } else {
        SwitchPosition::Center
    }
}

/// Events for the synthetic axes of the switches below `n` that differ:
/// switch `i` has the axes `2i` (x) and `2i + 1` (y).
pub open spec fn switch_changes(old: Seq<SwitchPosition>, new: Seq<SwitchPosition>, n: int) -> Seq<
    RawEventType,
>
    decreases n,
{
    if n <= 0 {
        seq![]
    } else {
        let prev = switch_changes(old, new, n - 1);
        let i = n - 1;
        let (ox, oy) = switch_direction(switch_at(old, i));
        let (nx, ny) = switch_direction(new[i]);
        let with_x = if ox != nx {
            prev.push(RawEventType::AxisValueChanged(nx, switch_code(2 * i)))
        } else {
            prev
        };
        if oy != ny {
            with_x.push(RawEventType::AxisValueChanged(ny, switch_code(2 * i + 1)))
        } else {
            with_x
        }
    }
}

impl RawGamepadReading {
    /// Every index of the reading fits the index of a code.
    pub open spec fn wf(&self) -> bool {
        &&& self.axes@.len() <= u32::MAX
        &&& self.buttons@.len() <= u32::MAX
        &&& self.switches@.len() < 0x8000_0000
    }
}

/// All events that the difference of two raw readings gives: axes first,
/// then buttons, then switches, each by increasing index.
pub open spec fn raw_diff(old: RawGamepadReading, new: RawGamepadReading) -> Seq<RawEventType> {
    axis_changes(old.axes@, new.axes@, new.axes@.len() as int) + button_changes(
        old.buttons@,
        new.buttons@,
        new.buttons@.len() as int,
    ) + switch_changes(old.switches@, new.switches@, new.switches@.len() as int)
}

/// Number of buttons that a standard gamepad reading holds.
pub const NUM_GAMEPAD_BUTTONS: usize = 14;

/// The bit of a standard gamepad button in a reading, and the native code
/// that reports it, for each position in the fixed table.
pub open spec fn gamepad_button_spec(i: int) -> (u32, EvCode) {
    let b = EvCodeKind::Button;
    if i == 0 {
        (64, EvCode { kind: b, index: BTN_DPAD_UP })
    } else if i == 1 {
        (128, EvCode { kind: b, index: BTN_DPAD_DOWN })
    } else if i == 2 {
        (256, EvCode { kind: b, index: BTN_DPAD_LEFT })
    } else if i == 3 {
        (512, EvCode { kind: b, index: BTN_DPAD_RIGHT })
    } else if i == 4 {
        (1, EvCode { kind: b, index: BTN_START })
    } else if i == 5 {
        (2, EvCode { kind: b, index: BTN_SELECT })
    } else if i == 6 {
        (4096, EvCode { kind: b, index: BTN_LTHUMB })
    } else if i == 7 {
        (8192, EvCode { kind: b, index: BTN_RTHUMB })
    } else if i == 8 {
        (1024, EvCode { kind: b, index: BTN_LT })
    } else if i == 9 {
        (2048, EvCode { kind: b, index: BTN_RT })
    } else if i == 10 {
        (4, EvCode { kind: b, index: BTN_SOUTH })
    } else if i == 11 {
        (8, EvCode { kind: b, index: BTN_EAST })
    } else if i == 12 {
        (16, EvCode { kind: b, index: BTN_WEST })
    } else {
        (32, EvCode { kind: b, index: BTN_NORTH })
    }
}

pub fn gamepad_button(i: usize) -> (r: (u32, EvCode))
    requires
        i < NUM_GAMEPAD_BUTTONS,
    ensures
        r == gamepad_button_spec(i as int),
{
    let (mask, index): (u32, u32) = match i {
        0 => (64, BTN_DPAD_UP),
        1 => (128, BTN_DPAD_DOWN),
        2 => (256, BTN_DPAD_LEFT),
        3 => (512, BTN_DPAD_RIGHT),
        4 => (1, BTN_START),
        5 => (2, BTN_SELECT),
        6 => (4096, BTN_LTHUMB),
        7 => (8192, BTN_RTHUMB),
        8 => (1024, BTN_LT),
        9 => (2048, BTN_RT),
        10 => (4, BTN_SOUTH),
        11 => (8, BTN_EAST),
        12 => (16, BTN_WEST),
        _ => (32, BTN_NORTH),
    };
    (mask, EvCode::new(EvCodeKind::Button, index))
}

/// The six analog values of a gamepad reading with their codes, in the
/// order in which they are compared.
pub open spec fn gamepad_axes(r: GamepadReading) -> Seq<(i32, EvCode)> {
    let a = EvCodeKind::Axis;
    seq![
        (r.left_trigger, EvCode { kind: a, index: AXIS_LT2 }),
        (r.right_trigger, EvCode { kind: a, index: AXIS_RT2 }),
        (r.left_thumbstick_x, EvCode { kind: a, index: AXIS_LSTICKX }),
        (r.left_thumbstick_y, EvCode { kind: a, index: AXIS_LSTICKY }),
        (r.right_thumbstick_x, EvCode { kind: a, index: AXIS_RSTICKX }),
        (r.right_thumbstick_y, EvCode { kind: a, index: AXIS_RSTICKY }),
    ]
}

/// Events for the first `n` analog values of a gamepad that differ.
pub open spec fn gamepad_axis_changes(old: GamepadReading, new: GamepadReading, n: int) -> Seq<
    RawEventType,
>
    decreases n,
{
    if n <= 0 {
        seq![]
    } else {
        let prev = gamepad_axis_changes(old, new, n - 1);
        let (nv, code) = gamepad_axes(new)[n - 1];
        let (ov, _) = gamepad_axes(old)[n - 1];
        if nv != ov {
            prev.push(RawEventType::AxisValueChanged(nv, code))
        } else {
            prev
        }
    }
}

/// Events for the first `n` buttons of the gamepad table whose bit differs.
pub open spec fn gamepad_button_changes(old: u32, new: u32, n: int) -> Seq<RawEventType>
    decreases n,
{
    if n <= 0 {
        seq![]
    } else {
        let prev = gamepad_button_changes(old, new, n - 1);
        let (mask, code) = gamepad_button_spec(n - 1);
        if new & mask == old & mask {
            prev
        } else if new & mask != 0 {
            prev.push(RawEventType::ButtonPressed(code))
        } else {
            prev.push(RawEventType::ButtonReleased(code))
        }
    }
}

/// All events that the difference of two gamepad readings gives.
pub open spec fn gamepad_diff(old: GamepadReading, new: GamepadReading) -> Seq<RawEventType> {
    gamepad_axis_changes(old, new, 6) + gamepad_button_changes(
        old.buttons,
        new.buttons,
        NUM_GAMEPAD_BUTTONS as int,
    )
}

impl Reading {
    pub open spec fn spec_time(&self) -> u64 {
        match self {
            Reading::Raw(r) => r.time,
            Reading::Gamepad(r) => r.time,
        }
    }

    pub open spec fn spec_is_gamepad(&self) -> bool {
        self is Gamepad
    }

    pub open spec fn wf(&self) -> bool {
        match self {
            Reading::Raw(r) => r.wf(),
            Reading::Gamepad(_) => true,
        }
    }

    pub fn time(&self) -> (r: u64)
        ensures
            r == self.spec_time(),
    {
        match self {
            Reading::Raw(r) => r.time,
            Reading::Gamepad(r) => r.time,
        }
    }

    pub fn is_gamepad(&self) -> (r: bool)
        ensures
            r == self.spec_is_gamepad(),
    {
        match self {
            Reading::Raw(_) => false,
            Reading::Gamepad(_) => true,
        }
    }

    /// What the difference of `old` and `new` gives, for readings of the
    /// same class; an error where the class changed.
    pub open spec fn spec_diff(old: Reading, new: Reading) -> Result<Seq<RawEventType>, ReadingError> {
        match (old, new) {
            (Reading::Raw(o), Reading::Raw(n)) => Ok(raw_diff(o, n)),
            (Reading::Gamepad(o), Reading::Gamepad(n)) => Ok(gamepad_diff(o, n)),
            _ => Err(
                ReadingError::ClassChanged {
                    was_gamepad: old.spec_is_gamepad(),
                    is_gamepad: new.spec_is_gamepad(),
                },
            ),
        }
    }

    /// The events for every control whose value differs between two
    /// readings of one controller.
    pub fn send_events_for_differences(old: &Reading, new: &Reading) -> (r: Result<
        Vec<RawEventType>,
        ReadingError,
    >)
        requires
            new.wf(),
        ensures
            match (r, Reading::spec_diff(*old, *new)) {
                (Ok(v), Ok(s)) => v@ == s,
                (Err(e), Err(f)) => e == f,
                _ => false,
            },
    {
        match (old, new) {
            (Reading::Raw(o), Reading::Raw(n)) => Ok(raw_differences(o, n)),
            (Reading::Gamepad(o), Reading::Gamepad(n)) => Ok(gamepad_differences(o, n)),
            _ => Err(
                ReadingError::ClassChanged {
                    was_gamepad: old.is_gamepad(),
                    is_gamepad: new.is_gamepad(),
                },
            ),
        }
    }
}

fn raw_differences(old: &RawGamepadReading, new: &RawGamepadReading) -> (r: Vec<RawEventType>)
    requires
        new.wf(),
    ensures
        r@ == raw_diff(*old, *new),
{
    let mut events: Vec<RawEventType> = Vec::new();
    let mut index: usize = 0;
    while index < new.axes.len()
        invariant
            index <= new.axes@.len() <= u32::MAX,
            events@ == axis_changes(old.axes@, new.axes@, index as int),
        decreases new.axes@.len() - index,
    {
        let same = index < old.axes.len() && old.axes[index] == new.axes[index];
        if !same {
            let code = EvCode::new(EvCodeKind::Axis, index as u32);
            events.push(RawEventType::AxisValueChanged(new.axes[index], code));
        }
        index = index + 1;
    }
    let ghost axes_part = events@;
    let mut index: usize = 0;
    while index < new.buttons.len()
        invariant
            index <= new.buttons@.len() <= u32::MAX,
            events@ == axes_part + button_changes(old.buttons@, new.buttons@, index as int),
        decreases new.buttons@.len() - index,
    {
        let same = index < old.buttons.len() && old.buttons[index] == new.buttons[index];
        if !same {
            let code = EvCode::new(EvCodeKind::Button, index as u32);
            if new.buttons[index] {
                events.push(RawEventType::ButtonPressed(code));
            } else {
                events.push(RawEventType::ButtonReleased(code));
            }
        }
        proof {
            assert(axes_part + button_changes(old.buttons@, new.buttons@, index + 1) =~= events@);
        }
        index = index + 1;
    }
    let ghost buttons_part = events@;
    let mut index: usize = 0;
    while index < new.switches.len()
        invariant
            index <= new.switches@.len() < 0x8000_0000,
            events@ == buttons_part + switch_changes(old.switches@, new.switches@, index as int),
        decreases new.switches@.len() - index,
    {
        let old_position = if index < old.switches.len() {
            old.switches[index]
        } else {
            SwitchPosition::Center
        };
        let (old_x, old_y) = direction_from_switch(old_position);
        let (new_x, new_y) = direction_from_switch(new.switches[index]);
        if old_x != new_x {
            let code = EvCode::new(EvCodeKind::Switch, (index * 2) as u32);
            events.push(RawEventType::AxisValueChanged(new_x, code));
        }
        if old_y != new_y {
            let code = EvCode::new(EvCodeKind::Switch, (index * 2 + 1) as u32);
            events.push(RawEventType::AxisValueChanged(new_y, code));
        }
        proof {
            assert(buttons_part + switch_changes(old.switches@, new.switches@, index + 1)
                =~= events@);
        }
        index = index + 1;
    }
    events
}

fn gamepad_differences(old: &GamepadReading, new: &GamepadReading) -> (r: Vec<RawEventType>)
    ensures
        r@ == gamepad_diff(*old, *new),
{
    let a = EvCodeKind::Axis;
    let axes: [(i32, i32, EvCode); 6] = [
        (new.left_trigger, old.left_trigger, EvCode::new(a, AXIS_LT2)),
        (new.right_trigger, old.right_trigger, EvCode::new(a, AXIS_RT2)),
        (new.left_thumbstick_x, old.left_thumbstick_x, EvCode::new(a, AXIS_LSTICKX)),
        (new.left_thumbstick_y, old.left_thumbstick_y, EvCode::new(a, AXIS_LSTICKY)),
        (new.right_thumbstick_x, old.right_thumbstick_x, EvCode::new(a, AXIS_RSTICKX)),
        (new.right_thumbstick_y, old.right_thumbstick_y, EvCode::new(a, AXIS_RSTICKY)),
    ];
    let mut events: Vec<RawEventType> = Vec::new();
    let mut i: usize = 0;
    while i < 6
        invariant
            i <= 6,
            forall|k: int|
                0 <= k < 6 ==> (#[trigger] axes@[k]).0 == gamepad_axes(*new)[k].0 && axes@[k].1
                    == gamepad_axes(*old)[k].0 && axes@[k].2 == gamepad_axes(*new)[k].1,
            events@ == gamepad_axis_changes(*old, *new, i as int),
        decreases 6 - i,
    {
        let (new_value, old_value, code) = axes[i];
        if new_value != old_value {
            events.push(RawEventType::AxisValueChanged(new_value, code));
        }
        i = i + 1;
    }
    let ghost axes_part = events@;
    let mut i: usize = 0;
    while i < NUM_GAMEPAD_BUTTONS
        invariant
            i <= NUM_GAMEPAD_BUTTONS,
            events@ == axes_part + gamepad_button_changes(old.buttons, new.buttons, i as int),
        decreases NUM_GAMEPAD_BUTTONS - i,
    {
        let (mask, code) = gamepad_button(i);
        if new.buttons & mask != old.buttons & mask {
            if new.buttons & mask != 0 {
                events.push(RawEventType::ButtonPressed(code));
            } else {
                events.push(RawEventType::ButtonReleased(code));
            }
        }
        proof {
            assert(axes_part + gamepad_button_changes(old.buttons, new.buttons, i + 1) =~= events@);
        }
        i = i + 1;
    }
    events
}

/// One polling step for a controller: nothing where the reading's timestamp
/// did not move (an idle device), else the differences.
pub fn poll_differences(old: &Reading, new: &Reading) -> (r: Result<Vec<RawEventType>, ReadingError>)
    requires
        new.wf(),
    ensures
        old.spec_time() == new.spec_time() ==> r is Ok && r->Ok_0@.len() == 0,
        old.spec_time() != new.spec_time() ==> match (r, Reading::spec_diff(*old, *new)) {
            (Ok(v), Ok(s)) => v@ == s,
            (Err(e), Err(f)) => e == f,
            _ => false,
        },
{
    if old.time() == new.time() {
        Ok(Vec::new())
    } else {
        Reading::send_events_for_differences(old, new)
    }
}

proof fn lemma_axis_changes_single(old: Seq<i32>, new: Seq<i32>, k: int, n: int)
    requires
        old.len() == new.len(),
        0 <= k < new.len(),
        0 <= n <= new.len(),
        old[k] != new[k],
        forall|i: int| 0 <= i < new.len() && i != k ==> old[i] == new[i],
    ensures
        axis_changes(old, new, n) == (if n <= k {
            seq![]
        } else {
            seq![RawEventType::AxisValueChanged(new[k], axis_code(k))]
        }),
    decreases n,
{
    if n > 0 {
        lemma_axis_changes_single(old, new, k, n - 1);
        if n - 1 == k {
            assert(seq![].push(RawEventType::AxisValueChanged(new[k], axis_code(k)))
                =~= seq![RawEventType::AxisValueChanged(new[k], axis_code(k))]);
        }
    }
}

proof fn lemma_button_changes_same(s: Seq<bool>, n: int)
    requires
        n <= s.len(),
    ensures
        button_changes(s, s, n) == Seq::<RawEventType>::empty(),
    decreases n,
{
    if n > 0 {
        lemma_button_changes_same(s, n - 1);
    }
}

proof fn lemma_switch_changes_same(s: Seq<SwitchPosition>, n: int)
    requires
        n <= s.len(),
    ensures
        switch_changes(s, s, n) == Seq::<RawEventType>::empty(),
    decreases n,
{
    if n > 0 {
        lemma_switch_changes_same(s, n - 1);
    }
}

/// Two raw readings that differ only in the value of axis `k` give exactly
/// one event: the new value of that axis, under the code of axis `k`; no
/// button or switch event.
pub proof fn lemma_single_axis_difference(old: RawGamepadReading, new: RawGamepadReading, k: int)
    requires
        old.axes@.len() == new.axes@.len(),
        0 <= k < new.axes@.len(),
        old.axes@[k] != new.axes@[k],
        forall|i: int| 0 <= i < new.axes@.len() && i != k ==> old.axes@[i] == new.axes@[i],
        old.buttons@ == new.buttons@,
        old.switches@ == new.switches@,
    ensures
        raw_diff(old, new) == seq![RawEventType::AxisValueChanged(new.axes@[k], axis_code(k))],
{
    lemma_axis_changes_single(old.axes@, new.axes@, k, new.axes@.len() as int);
    lemma_button_changes_same(new.buttons@, new.buttons@.len() as int);
    lemma_switch_changes_same(new.switches@, new.switches@.len() as int);
    assert(raw_diff(old, new) =~= seq![
        RawEventType::AxisValueChanged(new.axes@[k], axis_code(k)),
    ]);
}

} // verus!
