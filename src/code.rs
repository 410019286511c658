//! Native control codes: a kind (button, axis, switch) and an index.

use vstd::prelude::*;
use crate::sdl::{decimal, push_decimal, string_from_chars};

verus! {

/// Kind of a native control.
#[derive(Copy, Clone, Debug, PartialEq, Eq, Hash, PartialOrd, Ord, Structural)]
pub enum EvCodeKind {
    Button,
    Axis,
    Switch,
}

impl EvCodeKind {
    /// Number of the kind in the packed form of a code.
    pub open spec fn number(self) -> u32 {
        match self {
            EvCodeKind::Button => 0,
            EvCodeKind::Axis => 1,
            EvCodeKind::Switch => 2,
        }
    }

    pub fn as_u32(self) -> (r: u32)
        ensures
            r == self.number(),
    {
        match self {
            EvCodeKind::Button => 0,
            EvCodeKind::Axis => 1,
            EvCodeKind::Switch => 2,
        }
    }

    /// Display name of the kind.
    pub open spec fn spec_name(self) -> Seq<char> {
        match self {
            EvCodeKind::Button => seq!['B', 'u', 't', 't', 'o', 'n'],
            EvCodeKind::Axis => seq!['A', 'x', 'i', 's'],
            EvCodeKind::Switch => seq!['S', 'w', 'i', 't', 'c', 'h'],
        }
    }

    /// Appends the display name of the kind.
    fn push_name(self, out: &mut Vec<char>)
        ensures
            final(out)@ == old(out)@ + self.spec_name(),
    {
        let ghost start = out@;
        match self {
            EvCodeKind::Button => {
                out.push('B');
                out.push('u');
                out.push('t');
                out.push('t');
                out.push('o');
                out.push('n');
            },
            EvCodeKind::Axis => {
                out.push('A');
                out.push('x');
                out.push('i');
                out.push('s');
            },
            EvCodeKind::Switch => {
                out.push('S');
                out.push('w');
                out.push('i');
                out.push('t');
                out.push('c');
                out.push('h');
            },
        }
        proof {
            assert(out@ =~= start + self.spec_name());
        }
    }

    /// Display name of the kind.
    pub fn name(self) -> (r: &'static str)
        ensures
            r@ == self.spec_name(),
    {
        match self {
            EvCodeKind::Button => {
                proof {
                    reveal_strlit("Button");
                }
                assert("Button"@ =~= self.spec_name());
                "Button"
            },
            EvCodeKind::Axis => {
                proof {
                    reveal_strlit("Axis");
                }
                assert("Axis"@ =~= self.spec_name());
                "Axis"
            },
            EvCodeKind::Switch => {
                proof {
                    reveal_strlit("Switch");
                }
                assert("Switch"@ =~= self.spec_name());
                "Switch"
            },
        }
    }
}

/// Platform identifier of one physical control: a kind and an index unique
/// within that kind.
#[derive(Copy, Clone, Debug, PartialEq, Eq, Hash, PartialOrd, Ord, Structural)]
pub struct EvCode {
    pub kind: EvCodeKind,
    pub index: u32,
}

impl EvCode {
    pub fn new(kind: EvCodeKind, index: u32) -> (r: EvCode)
        ensures
            r.kind == kind,
            r.index == index,
    {
        EvCode { kind, index }
    }

    pub fn kind(&self) -> (r: EvCodeKind)
        ensures
            r == self.kind,
    {
        self.kind
    }

    pub fn index(&self) -> (r: u32)
        ensures
            r == self.index,
    {
        self.index
    }

    /// The packed form of the code: the kind in the bits from 16 up, or-ed
    /// with the index.
    pub open spec fn packed(self) -> u32 {
        (self.kind.number() << 16u32) | self.index
    }

    /// The code as text: its kind and, in parentheses, its index, such as
    /// `Axis(3)`.
    pub fn to_text(&self) -> (r: String)
        ensures
            r@ == self.kind.spec_name() + seq!['('] + decimal(self.index as nat) + seq![')'],
    {
        let mut out: Vec<char> = Vec::new();
        self.kind.push_name(&mut out);
        out.push('(');
        push_decimal(&mut out, self.index as usize);
        out.push(')');
        proof {
            assert(out@ =~= self.kind.spec_name() + seq!['('] + decimal(self.index as nat) + seq![')']);
        }
        string_from_chars(&out)
    }

    pub fn into_u32(self) -> (r: u32)
        ensures
            r == self.packed(),
    {
        (self.kind.as_u32() << 16u32) | self.index
    }
}

/// Indices of the codes that a device with the standard gamepad layout
/// reports: `AXIS_*` of kind `Axis`, `BTN_*` of kind `Button`.
pub const AXIS_LSTICKY: u32 = 0;
pub const AXIS_LSTICKX: u32 = 1;
pub const AXIS_RSTICKY: u32 = 2;
pub const AXIS_RSTICKX: u32 = 3;
pub const AXIS_LT2: u32 = 4;
pub const AXIS_RT2: u32 = 5;
pub const AXIS_DPADX: u32 = 6;
pub const AXIS_DPADY: u32 = 7;
pub const AXIS_RT: u32 = 8;
pub const AXIS_LT: u32 = 9;
pub const AXIS_LEFTZ: u32 = 10;
pub const AXIS_RIGHTZ: u32 = 11;

pub const BTN_SOUTH: u32 = 0;
pub const BTN_EAST: u32 = 1;
pub const BTN_WEST: u32 = 2;
pub const BTN_NORTH: u32 = 3;
pub const BTN_LT: u32 = 4;
pub const BTN_RT: u32 = 5;
pub const BTN_SELECT: u32 = 6;
pub const BTN_START: u32 = 7;
pub const BTN_LTHUMB: u32 = 8;
pub const BTN_RTHUMB: u32 = 9;
pub const BTN_DPAD_UP: u32 = 10;
pub const BTN_DPAD_RIGHT: u32 = 11;
pub const BTN_DPAD_DOWN: u32 = 12;
pub const BTN_DPAD_LEFT: u32 = 13;
pub const BTN_MODE: u32 = 14;
pub const BTN_C: u32 = 15;
pub const BTN_Z: u32 = 16;
pub const BTN_LT2: u32 = 17;
pub const BTN_RT2: u32 = 18;

} // verus!
