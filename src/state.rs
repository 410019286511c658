//! Cached state of one device: the last value of each button and axis, with
//! the counter and time of its last change.

use vstd::prelude::*;
use crate::code::EvCode;
use crate::ev::{EventType, UNIT};

verus! {

/// Largest counter value; the counter is 62 bits wide.
pub const MAX_COUNTER: u64 = 0x3FFF_FFFF_FFFF_FFFF;

/// The counter after one frame: one more, or 0 after the largest value.
pub open spec fn next_counter(c: u64) -> u64 {
    if c == MAX_COUNTER {
        0
    } else {
        (c + 1) as u64
    }
}

/// The counter after one frame.
pub fn counter_after(c: u64) -> (r: u64)
    requires
        c <= MAX_COUNTER,
    ensures
        r == next_counter(c),
        r <= MAX_COUNTER,
{
    if c == MAX_COUNTER {
        0
    } else {
        c + 1
    }
}

/// Cached state of a button.
#[derive(Copy, Clone, Debug, PartialEq, Eq, Structural)]
pub struct ButtonData {
    pub pressed: bool,
    pub repeating: bool,
    pub value: i32,
    pub counter: u64,
    pub time: u64,
}

impl ButtonData {
    pub fn is_pressed(&self) -> (r: bool)
        ensures
            r == self.pressed,
    {
        self.pressed
    }

    pub fn is_repeating(&self) -> (r: bool)
        ensures
            r == self.repeating,
    {
        self.repeating
    }

    pub fn value(&self) -> (r: i32)
        ensures
            r == self.value,
    {
        self.value
    }

    pub fn counter(&self) -> (r: u64)
        ensures
            r == self.counter,
    {
        self.counter
    }

    pub fn timestamp(&self) -> (r: u64)
        ensures
            r == self.time,
    {
        self.time
    }
}

/// Cached state of an axis.
#[derive(Copy, Clone, Debug, PartialEq, Eq, Structural)]
pub struct AxisData {
    pub value: i32,
    pub counter: u64,
    pub time: u64,
}

impl AxisData {
    pub fn new(value: i32, counter: u64, time: u64) -> (r: AxisData)
        ensures
            r == (AxisData { value, counter, time }),
    {
        AxisData { value, counter, time }
    }

    pub fn value(&self) -> (r: i32)
        ensures
            r == self.value,
    {
        self.value
    }

    pub fn counter(&self) -> (r: u64)
        ensures
            r == self.counter,
    {
        self.counter
    }

    pub fn timestamp(&self) -> (r: u64)
        ensures
            r == self.time,
    {
        self.time
    }
}

/// The entry of `c` in a table with unique keys.
pub open spec fn lookup<T>(s: Seq<(EvCode, T)>, c: EvCode) -> Option<T> {
    if exists|i: int| 0 <= i < s.len() && s[i].0 == c {
        Some(s[choose|i: int| 0 <= i < s.len() && s[i].0 == c].1)
    } else {
        None
    }
}

pub open spec fn keys_unique<T>(s: Seq<(EvCode, T)>) -> bool {
    forall|i: int, j: int| 0 <= i < s.len() && 0 <= j < s.len() && i != j ==> s[i].0 != s[j].0
}

proof fn lemma_lookup_at<T>(s: Seq<(EvCode, T)>, i: int)
    requires
        keys_unique(s),
        0 <= i < s.len(),
    ensures
        lookup(s, s[i].0) == Some(s[i].1),
{
}

proof fn lemma_lookup_set<T>(s: Seq<(EvCode, T)>, i: int, v: T)
    requires
        keys_unique(s),
        0 <= i < s.len(),
    ensures
        keys_unique(s.update(i, (s[i].0, v))),
        forall|c: EvCode|
            #[trigger] lookup(s.update(i, (s[i].0, v)), c) == if c == s[i].0 {
                Some(v)
            } else {
                lookup(s, c)
            },
{
    let t = s.update(i, (s[i].0, v));
    assert forall|c: EvCode| #[trigger] lookup(t, c) == if c == s[i].0 {
        Some(v)
    } else {
        lookup(s, c)
    } by {
        if c == s[i].0 {
            lemma_lookup_at(t, i);
        } else if exists|j: int| 0 <= j < s.len() && s[j].0 == c {
            let j = choose|j: int| 0 <= j < s.len() && s[j].0 == c;
            lemma_lookup_at(t, j);
            lemma_lookup_at(s, j);
        }
    }
}

proof fn lemma_lookup_push<T>(s: Seq<(EvCode, T)>, c: EvCode, v: T)
    requires
        keys_unique(s),
        lookup(s, c) is None,
    ensures
        keys_unique(s.push((c, v))),
        forall|d: EvCode|
            #[trigger] lookup(s.push((c, v)), d) == if d == c {
                Some(v)
            } else {
                lookup(s, d)
            },
{
    let t = s.push((c, v));
    assert forall|d: EvCode| #[trigger] lookup(t, d) == if d == c {
        Some(v)
    } else {
        lookup(s, d)
    } by {
        if d == c {
            lemma_lookup_at(t, s.len() as int);
        } else if exists|j: int| 0 <= j < s.len() && s[j].0 == d {
            let j = choose|j: int| 0 <= j < s.len() && s[j].0 == d;
            lemma_lookup_at(t, j);
            lemma_lookup_at(s, j);
        } else {
            assert(!exists|j: int| 0 <= j < t.len() && t[j].0 == d);
        }
    }
}

proof fn lemma_lookup_remove<T>(s: Seq<(EvCode, T)>, i: int)
    requires
        keys_unique(s),
        0 <= i < s.len(),
    ensures
        keys_unique(s.remove(i)),
        forall|d: EvCode|
            #[trigger] lookup(s.remove(i), d) == if d == s[i].0 {
                None
            } else {
                lookup(s, d)
            },
{
    let t = s.remove(i);
    assert forall|j: int| 0 <= j < t.len() implies #[trigger] t[j] == if j < i {
        s[j]
    } else {
        s[j + 1]
    } by {}
    assert(keys_unique(t)) by {
        assert forall|x: int, y: int| 0 <= x < t.len() && 0 <= y < t.len() && x != y implies t[x].0
            != t[y].0 by {
            let sx = if x < i { x } else { x + 1 };
            let sy = if y < i { y } else { y + 1 };
            assert(t[x] == s[sx]);
            assert(t[y] == s[sy]);
        }
    }
    assert forall|d: EvCode| #[trigger] lookup(t, d) == if d == s[i].0 {
        None
    } else {
        lookup(s, d)
    } by {
        if d == s[i].0 {
            assert forall|j: int| 0 <= j < t.len() implies t[j].0 != d by {
                let sj = if j < i { j } else { j + 1 };
                assert(t[j] == s[sj]);
            }
        } else if exists|j: int| 0 <= j < s.len() && s[j].0 == d {
            let j = choose|j: int| 0 <= j < s.len() && s[j].0 == d;
            let tj = if j < i { j } else { j - 1 };
            assert(t[tj] == s[j]);
            lemma_lookup_at(t, tj);
            lemma_lookup_at(s, j);
        } else {
            assert forall|j: int| 0 <= j < t.len() implies t[j].0 != d by {
                let sj = if j < i { j } else { j + 1 };
                assert(t[j] == s[sj]);
            }
        }
    }
}

fn position<T>(v: &Vec<(EvCode, T)>, c: EvCode) -> (r: Option<usize>)
    requires
        keys_unique(v@),
    ensures
        r matches Some(i) ==> i < v@.len() && v@[i as int].0 == c && lookup(v@, c) == Some(
            v@[i as int].1,
        ),
        r is None ==> lookup(v@, c) is None,
{
    let mut i: usize = 0;
    while i < v.len()
        invariant
            i <= v@.len(),
            keys_unique(v@),
            forall|j: int| 0 <= j < i ==> v@[j].0 != c,
        decreases v@.len() - i,
    {
        if v[i].0 == c {
            proof {
                lemma_lookup_at(v@, i as int);
            }
            return Some(i);
        }
        i = i + 1;
    }
    None
}

/// Button and axis data of one device, keyed by native code.
#[derive(Clone, Debug)]
pub struct GamepadState {
    buttons: Vec<(EvCode, ButtonData)>,
    axes: Vec<(EvCode, AxisData)>,
}

impl GamepadState {
    pub closed spec fn btn(&self, c: EvCode) -> Option<ButtonData> {
        lookup(self.buttons@, c)
    }

    pub closed spec fn axis(&self, c: EvCode) -> Option<AxisData> {
        lookup(self.axes@, c)
    }

    pub closed spec fn wf(&self) -> bool {
        keys_unique(self.buttons@) && keys_unique(self.axes@)
    }

    /// Whether the button of code `c` is held, false where nothing is known.
    pub open spec fn spec_is_pressed(&self, c: EvCode) -> bool {
        match self.btn(c) {
            Some(d) => d.pressed,
            None => false,
        }
    }

    /// The value of the control of code `c`: the axis value where there is
    /// one, else the button value, else 0.
    pub open spec fn spec_value(&self, c: EvCode) -> i32 {
        match self.axis(c) {
            Some(d) => d.value,
            None => match self.btn(c) {
                Some(d) => d.value,
                None => 0,
            },
        }
    }

    pub fn new() -> (r: GamepadState)
        ensures
            r.wf(),
            forall|c: EvCode| r.btn(c) is None && r.axis(c) is None,
    {
        GamepadState { buttons: Vec::new(), axes: Vec::new() }
    }

    pub fn button_data(&self, c: EvCode) -> (r: Option<ButtonData>)
        requires
            self.wf(),
        ensures
            r == self.btn(c),
    {
        match position(&self.buttons, c) {
            Some(i) => Some(self.buttons[i].1),
            None => None,
        }
    }

    pub fn axis_data(&self, c: EvCode) -> (r: Option<AxisData>)
        requires
            self.wf(),
        ensures
            r == self.axis(c),
    {
        match position(&self.axes, c) {
            Some(i) => Some(self.axes[i].1),
            None => None,
        }
    }

    pub fn is_pressed(&self, c: EvCode) -> (r: bool)
        requires
            self.wf(),
        ensures
            r == self.spec_is_pressed(c),
    {
        match self.button_data(c) {
            Some(d) => d.pressed,
            None => false,
        }
    }

    pub fn value(&self, c: EvCode) -> (r: i32)
        requires
            self.wf(),
        ensures
            r == self.spec_value(c),
    {
        match self.axis_data(c) {
            Some(d) => d.value,
            None => match self.button_data(c) {
                Some(d) => d.value,
                None => 0,
            },
        }
    }

    /// Stores `d` as the data of button `c`.
    fn put_btn(&mut self, c: EvCode, d: ButtonData)
        requires
            old(self).wf(),
        ensures
            final(self).wf(),
            forall|e: EvCode|
                #[trigger] final(self).btn(e) == if e == c {
                    Some(d)
                } else {
                    old(self).btn(e)
                },
            forall|e: EvCode| #[trigger] final(self).axis(e) == old(self).axis(e),
    {
        match position(&self.buttons, c) {
            Some(i) => {
                proof {
                    lemma_lookup_set(self.buttons@, i as int, d);
                }
                self.buttons.set(i, (c, d));
            },
            None => {
                proof {
                    lemma_lookup_push(self.buttons@, c, d);
                }
                self.buttons.push((c, d));
            },
        }
    }

    /// Records that button `c` was pressed or released.
    pub fn set_btn_pressed(&mut self, c: EvCode, pressed: bool, counter: u64, time: u64)
        requires
            old(self).wf(),
        ensures
            final(self).wf(),
            final(self).btn(c) == Some(
                ButtonData {
                    pressed,
                    repeating: false,
                    value: if pressed {
                        UNIT
                    } else {
                        0
                    },
                    counter,
                    time,
                },
            ),
            forall|e: EvCode| e != c ==> #[trigger] final(self).btn(e) == old(self).btn(e),
            forall|e: EvCode| #[trigger] final(self).axis(e) == old(self).axis(e),
    {
        let value = if pressed {
            UNIT
        } else {
            0
        };
        self.put_btn(c, ButtonData { pressed, repeating: false, value, counter, time });
    }

    /// Records that button `c` repeated: it stays pressed and is marked
    /// repeating.
    pub fn set_btn_repeating(&mut self, c: EvCode, counter: u64, time: u64)
        requires
            old(self).wf(),
        ensures
            final(self).wf(),
            final(self).btn(c) == Some(
                ButtonData {
                    pressed: true,
                    repeating: true,
                    value: match old(self).btn(c) {
                        Some(d) => d.value,
                        None => UNIT,
                    },
                    counter,
                    time,
                },
            ),
            forall|e: EvCode| e != c ==> #[trigger] final(self).btn(e) == old(self).btn(e),
            forall|e: EvCode| #[trigger] final(self).axis(e) == old(self).axis(e),
    {
        let value = match self.button_data(c) {
            Some(d) => d.value,
            None => UNIT,
        };
        self.put_btn(c, ButtonData { pressed: true, repeating: true, value, counter, time });
    }

    /// Records a new value of button `c`; whether it is pressed stays as it
    /// was.
    pub fn set_btn_value(&mut self, c: EvCode, value: i32, counter: u64, time: u64)
        requires
            old(self).wf(),
        ensures
            final(self).wf(),
            final(self).btn(c) == Some(
                ButtonData {
                    pressed: old(self).spec_is_pressed(c),
                    repeating: match old(self).btn(c) {
                        Some(d) => d.repeating,
                        None => false,
                    },
                    value,
                    counter,
                    time,
                },
            ),
            forall|e: EvCode| e != c ==> #[trigger] final(self).btn(e) == old(self).btn(e),
            forall|e: EvCode| #[trigger] final(self).axis(e) == old(self).axis(e),
    {
        let (pressed, repeating) = match self.button_data(c) {
            Some(d) => (d.pressed, d.repeating),
            None => (false, false),
        };
        self.put_btn(c, ButtonData { pressed, repeating, value, counter, time });
    }

    /// Records new data of axis `c`.
    pub fn update_axis(&mut self, c: EvCode, data: AxisData)
        requires
            old(self).wf(),
        ensures
            final(self).wf(),
            final(self).axis(c) == Some(data),
            forall|e: EvCode| e != c ==> #[trigger] final(self).axis(e) == old(self).axis(e),
            forall|e: EvCode| #[trigger] final(self).btn(e) == old(self).btn(e),
    {
        match position(&self.axes, c) {
            Some(i) => {
                proof {
                    lemma_lookup_set(self.axes@, i as int, data);
                }
                self.axes.set(i, (c, data));
            },
            None => {
                proof {
                    lemma_lookup_push(self.axes@, c, data);
                }
                self.axes.push((c, data));
            },
        }
    }

    /// Forgets the button data of code `c`.
    fn remove_btn(&mut self, c: EvCode)
        requires
            old(self).wf(),
        ensures
            final(self).wf(),
            forall|e: EvCode|
                #[trigger] final(self).btn(e) == if e == c {
                    None
                } else {
                    old(self).btn(e)
                },
            forall|e: EvCode| #[trigger] final(self).axis(e) == old(self).axis(e),
    {
        match position(&self.buttons, c) {
            Some(i) => {
                proof {
                    lemma_lookup_remove(self.buttons@, i as int);
                }
                self.buttons.remove(i);
            },
            None => {},
        }
    }

    /// Forgets the axis data of code `c`.
    fn remove_axis(&mut self, c: EvCode)
        requires
            old(self).wf(),
        ensures
            final(self).wf(),
            forall|e: EvCode|
                #[trigger] final(self).axis(e) == if e == c {
                    None
                } else {
                    old(self).axis(e)
                },
            forall|e: EvCode| #[trigger] final(self).btn(e) == old(self).btn(e),
    {
        match position(&self.axes, c) {
            Some(i) => {
                proof {
                    lemma_lookup_remove(self.axes@, i as int);
                }
                self.axes.remove(i);
            },
            None => {},
        }
    }

    /// The data of button `c` after event `e` is committed at `counter`
    /// and `time`.
    pub open spec fn committed_btn(&self, e: EventType, counter: u64, time: u64, c: EvCode) -> Option<
        ButtonData,
    > {
        match e {
            EventType::ButtonPressed(_, nec) => if nec == c {
                Some(ButtonData { pressed: true, repeating: false, value: UNIT, counter, time })
            } else {
                self.btn(c)
            },
            EventType::ButtonReleased(_, nec) => if nec == c {
                Some(ButtonData { pressed: false, repeating: false, value: 0, counter, time })
            } else {
                self.btn(c)
            },
            EventType::ButtonRepeated(_, nec) => if nec == c {
                Some(
                    ButtonData {
                        pressed: true,
                        repeating: true,
                        value: match self.btn(c) {
                            Some(d) => d.value,
                            None => UNIT,
                        },
                        counter,
                        time,
                    },
                )
            } else {
                self.btn(c)
            },
            EventType::ButtonChanged(_, v, nec) => if nec == c {
                Some(
                    ButtonData {
                        pressed: self.spec_is_pressed(c),
                        repeating: match self.btn(c) {
                            Some(d) => d.repeating,
                            None => false,
                        },
                        value: v,
                        counter,
                        time,
                    },
                )
            } else {
                self.btn(c)
            },
            EventType::AxisChanged(_, _, nec) => if nec == c {
                None
            } else {
                self.btn(c)
            },
            _ => self.btn(c),
        }
    }

    /// The data of axis `c` after event `e` is committed at `counter` and
    /// `time`. A code's data is kept as a button or as an axis, never both:
    /// a button event on a code forgets its axis data, and the other way
    /// round, so `spec_value` reports what was committed last.
    pub open spec fn committed_axis(&self, e: EventType, counter: u64, time: u64, c: EvCode) -> Option<
        AxisData,
    > {
        match e {
            EventType::AxisChanged(_, v, nec) => if nec == c {
                Some(AxisData { value: v, counter, time })
            } else {
                self.axis(c)
            },
            EventType::ButtonPressed(_, nec) => if nec == c {
                None
            } else {
                self.axis(c)
            },
            EventType::ButtonReleased(_, nec) => if nec == c {
                None
            } else {
                self.axis(c)
            },
            EventType::ButtonRepeated(_, nec) => if nec == c {
                None
            } else {
                self.axis(c)
            },
            EventType::ButtonChanged(_, _, nec) => if nec == c {
                None
            } else {
                self.axis(c)
            },
            _ => self.axis(c),
        }
    }

    /// Records what event `e` says of a button or axis.
    pub fn commit(&mut self, e: EventType, counter: u64, time: u64)
        requires
            old(self).wf(),
        ensures
            final(self).wf(),
            forall|c: EvCode| #[trigger] final(self).btn(c) == old(self).committed_btn(e, counter, time, c),
            forall|c: EvCode| #[trigger] final(self).axis(c) == old(self).committed_axis(e, counter, time, c),
    {
        match e {
            EventType::ButtonPressed(_, nec) => {
                self.set_btn_pressed(nec, true, counter, time);
                self.remove_axis(nec);
            },
            EventType::ButtonReleased(_, nec) => {
                self.set_btn_pressed(nec, false, counter, time);
                self.remove_axis(nec);
            },
            EventType::ButtonRepeated(_, nec) => {
                self.set_btn_repeating(nec, counter, time);
                self.remove_axis(nec);
            },
            EventType::ButtonChanged(_, v, nec) => {
                self.set_btn_value(nec, v, counter, time);
                self.remove_axis(nec);
            },
            EventType::AxisChanged(_, v, nec) => {
                self.update_axis(nec, AxisData::new(v, counter, time));
                self.remove_btn(nec);
            },
            _ => {},
        }
    }
}

/// The counter wraps to 0 after its largest value, and a committed entry
/// carries the counter it was committed at, whatever that value is: after a
/// wrap, an entry changed in the current frame reads as changed at the
/// current counter, never as older.
pub proof fn lemma_counter_wrap(s: GamepadState, e: EventType, time: u64, c: EvCode)
    ensures
        next_counter(MAX_COUNTER) == 0,
        forall|k: u64| k < MAX_COUNTER ==> next_counter(k) == k + 1,
        (e matches EventType::ButtonPressed(_, nec) && nec == c) ==> s.committed_btn(
            e,
            next_counter(MAX_COUNTER),
            time,
            c,
        )->Some_0.counter == next_counter(MAX_COUNTER),
        (e matches EventType::ButtonChanged(_, _, nec) && nec == c) ==> s.committed_btn(
            e,
            next_counter(MAX_COUNTER),
            time,
            c,
        )->Some_0.counter == next_counter(MAX_COUNTER),
        (e matches EventType::AxisChanged(_, _, nec) && nec == c) ==> s.committed_axis(
            e,
            next_counter(MAX_COUNTER),
            time,
            c,
        )->Some_0.counter == next_counter(MAX_COUNTER),
{
}

} // verus!
