//! Mapping between native codes and semantic controls.
//!
//! A mapping holds, for each semantic button and axis, the native code that
//! drives it, if any. No native code drives two controls, and `Unknown` is
//! never driven: the lookup from code to control is the inverse of this
//! table.

use vstd::prelude::*;
use crate::code::EvCode;
use crate::ev::{Axis, AxisOrBtn, Button, NUM_AXES, NUM_BUTTONS};

verus! {

/// Errors of building or parsing a mapping.
#[derive(Copy, Clone, Debug, PartialEq, Eq, Structural)]
pub enum MappingError {
    /// Malformed mapping text, or a name that cannot stand in it.
    Parser,
    /// A native code that the device does not have, or `Unknown` as a key.
    UnknownElement,
    /// One native code claimed by two controls.
    DuplicateAxis,
    /// A control that SDL2 does not know (`C`, `Z`, `LeftZ`, `RightZ`).
    NotSdl2Compatible,
    /// The device is not connected.
    NotConnected,
}

/// The code of slot `i` of the two tables, buttons first.
pub open spec fn slot(b: Seq<Option<EvCode>>, a: Seq<Option<EvCode>>, i: int) -> Option<EvCode> {
    if i < b.len() {
        b[i]
    } else {
        a[i - b.len()]
    }
}

/// No native code stands in two slots.
pub open spec fn codes_distinct(b: Seq<Option<EvCode>>, a: Seq<Option<EvCode>>) -> bool {
    forall|i: int, j: int|
        0 <= i < b.len() + a.len() && 0 <= j < b.len() + a.len() && i != j && (#[trigger] slot(
            b,
            a,
            i,
        )) is Some ==> slot(b, a, i) != #[trigger] slot(b, a, j)
}

/// Tables of the right sizes.
pub open spec fn tables_sized(b: Seq<Option<EvCode>>, a: Seq<Option<EvCode>>) -> bool {
    b.len() == NUM_BUTTONS && a.len() == NUM_AXES
}

/// Tables of a mapping: sized, `Unknown` undriven, codes distinct.
pub open spec fn tables_wf(b: Seq<Option<EvCode>>, a: Seq<Option<EvCode>>) -> bool {
    &&& tables_sized(b, a)
    &&& b[Button::Unknown.ord() as int] is None
    &&& a[Axis::Unknown.ord() as int] is None
    &&& codes_distinct(b, a)
}

/// Whether code `c` drives control `x` in the tables.
pub open spec fn drives(b: Seq<Option<EvCode>>, a: Seq<Option<EvCode>>, c: EvCode, x: AxisOrBtn) -> bool {
    match x {
        AxisOrBtn::Btn(btn) => btn != Button::Unknown && b[btn.ord() as int] == Some(c),
        AxisOrBtn::Axis(axis) => axis != Axis::Unknown && a[axis.ord() as int] == Some(c),
    }
}

/// The code that drives `x` in the tables.
pub open spec fn code_of(b: Seq<Option<EvCode>>, a: Seq<Option<EvCode>>, x: AxisOrBtn) -> Option<EvCode> {
    match x {
        AxisOrBtn::Btn(btn) => b[btn.ord() as int],
        AxisOrBtn::Axis(axis) => a[axis.ord() as int],
    }
}

/// A table of `n` empty slots.
pub(crate) fn empty_table(n: usize) -> (r: Vec<Option<EvCode>>)
    ensures
        r@.len() == n,
        forall|j: int| 0 <= j < n ==> r@[j] is None,
{
    let mut t: Vec<Option<EvCode>> = Vec::new();
    let mut i: usize = 0;
    while i < n
        invariant
            i <= n,
            t@.len() == i,
            forall|j: int| 0 <= j < i ==> t@[j] is None,
        decreases n - i,
    {
        t.push(None);
        i = i + 1;
    }
    t
}

/// Semantic controls with the native codes that the user wants them on.
#[derive(Clone, Debug)]
pub struct MappingData {
    buttons: Vec<Option<EvCode>>,
    axes: Vec<Option<EvCode>>,
}

impl MappingData {
    pub closed spec fn btn_view(&self) -> Seq<Option<EvCode>> {
        self.buttons@
    }

    pub closed spec fn axis_view(&self) -> Seq<Option<EvCode>> {
        self.axes@
    }

    pub open spec fn wf(&self) -> bool {
        tables_sized(self.btn_view(), self.axis_view())
    }

    pub open spec fn spec_button(&self, b: Button) -> Option<EvCode> {
        self.btn_view()[b.ord() as int]
    }

    pub open spec fn spec_axis(&self, a: Axis) -> Option<EvCode> {
        self.axis_view()[a.ord() as int]
    }

    /// Empty data: no control is on any code.
    pub fn new() -> (r: MappingData)
        ensures
            r.wf(),
            forall|b: Button| r.spec_button(b) is None,
            forall|a: Axis| r.spec_axis(a) is None,
    {
        MappingData { buttons: empty_table(NUM_BUTTONS), axes: empty_table(NUM_AXES) }
    }

    pub(crate) fn btn_table(&self) -> (r: &Vec<Option<EvCode>>)
        ensures
            r@ == self.btn_view(),
    {
        &self.buttons
    }

    pub(crate) fn axis_table(&self) -> (r: &Vec<Option<EvCode>>)
        ensures
            r@ == self.axis_view(),
    {
        &self.axes
    }

    pub fn button(&self, b: Button) -> (r: Option<EvCode>)
        requires
            self.wf(),
        ensures
            r == self.spec_button(b),
    {
        self.buttons[b.ordinal()]
    }

    pub fn axis(&self, a: Axis) -> (r: Option<EvCode>)
        requires
            self.wf(),
        ensures
            r == self.spec_axis(a),
    {
        self.axes[a.ordinal()]
    }

    /// Puts button `b` on code `c`; returns the code it was on.
    pub fn insert_btn(&mut self, b: Button, c: EvCode) -> (r: Option<EvCode>)
        requires
            old(self).wf(),
        ensures
            final(self).wf(),
            r == old(self).spec_button(b),
            final(self).btn_view() == old(self).btn_view().update(b.ord() as int, Some(c)),
            final(self).axis_view() == old(self).axis_view(),
    {
        let i = b.ordinal();
        let prev = self.buttons[i];
        self.buttons.set(i, Some(c));
        prev
    }

    /// Puts axis `a` on code `c`; returns the code it was on.
    pub fn insert_axis(&mut self, a: Axis, c: EvCode) -> (r: Option<EvCode>)
        requires
            old(self).wf(),
        ensures
            final(self).wf(),
            r == old(self).spec_axis(a),
            final(self).axis_view() == old(self).axis_view().update(a.ord() as int, Some(c)),
            final(self).btn_view() == old(self).btn_view(),
    {
        let i = a.ordinal();
        let prev = self.axes[i];
        self.axes.set(i, Some(c));
        prev
    }

    /// Takes button `b` off its code; returns the code.
    pub fn remove_button(&mut self, b: Button) -> (r: Option<EvCode>)
        requires
            old(self).wf(),
        ensures
            final(self).wf(),
            r == old(self).spec_button(b),
            final(self).btn_view() == old(self).btn_view().update(b.ord() as int, None),
            final(self).axis_view() == old(self).axis_view(),
    {
        let i = b.ordinal();
        let prev = self.buttons[i];
        self.buttons.set(i, None);
        prev
    }

    /// Takes axis `a` off its code; returns the code.
    pub fn remove_axis(&mut self, a: Axis) -> (r: Option<EvCode>)
        requires
            old(self).wf(),
        ensures
            final(self).wf(),
            r == old(self).spec_axis(a),
            final(self).axis_view() == old(self).axis_view().update(a.ord() as int, None),
            final(self).btn_view() == old(self).btn_view(),
    {
        let i = a.ordinal();
        let prev = self.axes[i];
        self.axes.set(i, None);
        prev
    }
}

/// The mapping of one device: which native code drives each semantic
/// control, with the mapping's name and the device's UUID.
#[derive(Clone, Debug)]
pub struct Mapping {
    buttons: Vec<Option<EvCode>>,
    axes: Vec<Option<EvCode>>,
    name: String,
    uuid: u128,
    default: bool,
}

impl Mapping {
    pub closed spec fn btn_view(&self) -> Seq<Option<EvCode>> {
        self.buttons@
    }

    pub closed spec fn axis_view(&self) -> Seq<Option<EvCode>> {
        self.axes@
    }

    pub closed spec fn name_view(&self) -> Seq<char> {
        self.name@
    }

    pub closed spec fn uuid_view(&self) -> u128 {
        self.uuid
    }

    pub closed spec fn is_default_view(&self) -> bool {
        self.default
    }

    pub open spec fn wf(&self) -> bool {
        tables_wf(self.btn_view(), self.axis_view())
    }

    /// Whether code `c` drives control `x`.
    pub open spec fn maps_to(&self, c: EvCode, x: AxisOrBtn) -> bool {
        drives(self.btn_view(), self.axis_view(), c, x)
    }

    /// The control that code `c` drives, if any.
    pub open spec fn spec_map(&self, c: EvCode) -> Option<AxisOrBtn> {
        if exists|x: AxisOrBtn| self.maps_to(c, x) {
            Some(choose|x: AxisOrBtn| self.maps_to(c, x))
        } else {
            None
        }
    }

    pub open spec fn spec_map_rev(&self, x: AxisOrBtn) -> Option<EvCode> {
        code_of(self.btn_view(), self.axis_view(), x)
    }

    /// The default mapping: no code drives any control, so every event of
    /// the device is reported as `Unknown`.
    pub fn new() -> (r: Mapping)
        ensures
            r.wf(),
            r.is_default_view(),
            r.name_view().len() == 0,
            r.uuid_view() == 0,
            forall|x: AxisOrBtn| r.spec_map_rev(x) is None,
    {
        Mapping {
            buttons: empty_table(NUM_BUTTONS),
            axes: empty_table(NUM_AXES),
            name: String::new(),
            uuid: 0,
            default: true,
        }
    }

    /// A mapping of the given tables, name and UUID.
    pub(crate) fn from_parts(
        buttons: Vec<Option<EvCode>>,
        axes: Vec<Option<EvCode>>,
        name: String,
        uuid: u128,
    ) -> (r: Mapping)
        requires
            tables_wf(buttons@, axes@),
        ensures
            r.wf(),
            r.btn_view() == buttons@,
            r.axis_view() == axes@,
            r.name_view() == name@,
            r.uuid_view() == uuid,
            !r.is_default_view(),
    {
        Mapping { buttons, axes, name, uuid, default: false }
    }

    pub fn is_default(&self) -> (r: bool)
        ensures
            r == self.is_default_view(),
    {
        self.default
    }

    pub fn name(&self) -> (r: &str)
        ensures
            r@ == self.name_view(),
    {
        self.name.as_str()
    }

    pub fn uuid(&self) -> (r: u128)
        ensures
            r == self.uuid_view(),
    {
        self.uuid
    }

    /// The control that code `c` drives, if any.
    pub fn map(&self, c: EvCode) -> (r: Option<AxisOrBtn>)
        requires
            self.wf(),
        ensures
            match r {
                Some(x) => self.maps_to(c, x),
                None => forall|x: AxisOrBtn| !self.maps_to(c, x),
            },
            r == self.spec_map(c),
    {
        let mut i: usize = 0;
        while i < NUM_BUTTONS
            invariant
                i <= NUM_BUTTONS,
                self.wf(),
                forall|j: int| 0 <= j < i ==> self.btn_view()[j] != Some(c),
            decreases NUM_BUTTONS - i,
        {
            if self.buttons[i] == Some(c) {
                let b = Button::from_ordinal(i);
                proof {
                    assert(self.maps_to(c, AxisOrBtn::Btn(b)));
                    let y = choose|y: AxisOrBtn| self.maps_to(c, y);
                    lemma_maps_to_unique(*self, c, AxisOrBtn::Btn(b), y);
                }
                return Some(AxisOrBtn::Btn(b));
            }
            i = i + 1;
        }
        let mut i: usize = 0;
        while i < NUM_AXES
            invariant
                i <= NUM_AXES,
                self.wf(),
                forall|j: int| 0 <= j < NUM_BUTTONS ==> self.btn_view()[j] != Some(c),
                forall|j: int| 0 <= j < i ==> self.axis_view()[j] != Some(c),
            decreases NUM_AXES - i,
        {
            if self.axes[i] == Some(c) {
                let a = Axis::from_ordinal(i);
                proof {
                    assert(self.maps_to(c, AxisOrBtn::Axis(a)));
                    let y = choose|y: AxisOrBtn| self.maps_to(c, y);
                    lemma_maps_to_unique(*self, c, AxisOrBtn::Axis(a), y);
                }
                return Some(AxisOrBtn::Axis(a));
            }
            i = i + 1;
        }
        None
    }

    /// The code that drives control `x`, if any.
    pub fn map_rev(&self, x: AxisOrBtn) -> (r: Option<EvCode>)
        requires
            self.wf(),
        ensures
            r == self.spec_map_rev(x),
            r matches Some(c) ==> self.maps_to(c, x),
    {
        match x {
            AxisOrBtn::Btn(b) => self.buttons[b.ordinal()],
            AxisOrBtn::Axis(a) => self.axes[a.ordinal()],
        }
    }
}

/// A code drives at most one control in a well-formed mapping.
pub proof fn lemma_maps_to_unique(m: Mapping, c: EvCode, x: AxisOrBtn, y: AxisOrBtn)
    requires
        m.wf(),
        m.maps_to(c, x),
        m.maps_to(c, y),
    ensures
        x == y,
{
    let b = m.btn_view();
    let a = m.axis_view();
    let ix = match x {
        AxisOrBtn::Btn(btn) => btn.ord() as int,
        AxisOrBtn::Axis(axis) => NUM_BUTTONS + axis.ord(),
    };
    let iy = match y {
        AxisOrBtn::Btn(btn) => btn.ord() as int,
        AxisOrBtn::Axis(axis) => NUM_BUTTONS + axis.ord(),
    };
    assert(slot(b, a, ix) == Some(c));
    assert(slot(b, a, iy) == Some(c));
}

} // verus!
