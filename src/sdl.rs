//! The SDL mapping text: `uuid,name,key:token,key:token,...`.
//!
//! The UUID is 32 hex digits. A token is `b` (a native button) or `a` (a
//! native axis) followed by the index of the code in the device's list of
//! buttons or axes, with an optional leading `+` or `-` (half axis) and an
//! optional trailing `~` (inversion). Hat tokens (`h...`) and keys that name
//! no control here (such as `platform`) are skipped; an empty field is
//! skipped too.

use vstd::prelude::*;
use crate::code::EvCode;
use crate::ev::{Axis, AxisOrBtn, Button, NUM_AXES, NUM_BUTTONS};
use crate::mapping::{code_of, slot, tables_sized, tables_wf, Mapping, MappingData, MappingError};

verus! {

/// Number of slots: every button, then every axis, `Unknown` included.
pub const NUM_SLOTS: usize = 29;

/// The control of slot `i`: buttons first, then axes.
pub open spec fn slot_control(i: int) -> AxisOrBtn {
    if i < NUM_BUTTONS {
        AxisOrBtn::Btn(Button::at(i))
    } else {
        AxisOrBtn::Axis(Axis::at(i - NUM_BUTTONS))
    }
}

/// The slot of a control.
pub open spec fn slot_of(x: AxisOrBtn) -> int {
    match x {
        AxisOrBtn::Btn(b) => b.ord() as int,
        AxisOrBtn::Axis(a) => NUM_BUTTONS + a.ord(),
    }
}

/// Whether slot `i` holds an `Unknown` control.
pub open spec fn is_unknown_slot(i: int) -> bool {
    i == Button::Unknown.ord() || i == NUM_BUTTONS + Axis::Unknown.ord()
}

/// The SDL key of the control in slot `i` (empty for `Unknown`).
pub open spec fn slot_key(i: int) -> Seq<char> {
    if i == 0 {
        seq!['a']
    } else if i == 1 {
        seq!['b']
    } else if i == 2 {
        seq!['y']
    } else if i == 3 {
        seq!['x']
    } else if i == 4 {
        seq!['c']
    } else if i == 5 {
        seq!['z']
    } else if i == 6 {
        seq!['l', 'e', 'f', 't', 's', 'h', 'o', 'u', 'l', 'd', 'e', 'r']
    } else if i == 7 {
        seq!['l', 'e', 'f', 't', 't', 'r', 'i', 'g', 'g', 'e', 'r']
    } else if i == 8 {
        seq!['r', 'i', 'g', 'h', 't', 's', 'h', 'o', 'u', 'l', 'd', 'e', 'r']
    } else if i == 9 {
        seq!['r', 'i', 'g', 'h', 't', 't', 'r', 'i', 'g', 'g', 'e', 'r']
    } else if i == 10 {
        seq!['b', 'a', 'c', 'k']
    } else if i == 11 {
        seq!['s', 't', 'a', 'r', 't']
    } else if i == 12 {
        seq!['g', 'u', 'i', 'd', 'e']
    } else if i == 13 {
        seq!['l', 'e', 'f', 't', 's', 't', 'i', 'c', 'k']
    } else if i == 14 {
        seq!['r', 'i', 'g', 'h', 't', 's', 't', 'i', 'c', 'k']
    } else if i == 15 {
        seq!['d', 'p', 'u', 'p']
    } else if i == 16 {
        seq!['d', 'p', 'd', 'o', 'w', 'n']
    } else if i == 17 {
        seq!['d', 'p', 'l', 'e', 'f', 't']
    } else if i == 18 {
        seq!['d', 'p', 'r', 'i', 'g', 'h', 't']
    } else if i == 19 {
        Seq::<char>::empty()
    } else if i == 20 {
        seq!['l', 'e', 'f', 't', 'x']
    } else if i == 21 {
        seq!['l', 'e', 'f', 't', 'y']
    } else if i == 22 {
        seq!['l', 'e', 'f', 't', 'z']
    } else if i == 23 {
        seq!['r', 'i', 'g', 'h', 't', 'x']
    } else if i == 24 {
        seq!['r', 'i', 'g', 'h', 't', 'y']
    } else if i == 25 {
        seq!['r', 'i', 'g', 'h', 't', 'z']
    } else if i == 26 {
        seq!['d', 'p', 'a', 'd', 'x']
    } else if i == 27 {
        seq!['d', 'p', 'a', 'd', 'y']
    } else {
        Seq::<char>::empty()
    }
}

fn slot_key_chars(i: usize) -> (r: Vec<char>)
    requires
        i < NUM_SLOTS,
    ensures
        r@ == slot_key(i as int),
{
    let mut v: Vec<char> = Vec::new();
    match i {
        0 => {
            v.push('a');
        },
        1 => {
            v.push('b');
        },
        2 => {
            v.push('y');
        },
        3 => {
            v.push('x');
        },
        4 => {
            v.push('c');
        },
        5 => {
            v.push('z');
        },
        6 => {
            v.push('l');
            v.push('e');
            v.push('f');
            v.push('t');
            v.push('s');
            v.push('h');
            v.push('o');
            v.push('u');
            v.push('l');
            v.push('d');
            v.push('e');
            v.push('r');
        },
        7 => {
            v.push('l');
            v.push('e');
            v.push('f');
            v.push('t');
            v.push('t');
            v.push('r');
            v.push('i');
            v.push('g');
            v.push('g');
            v.push('e');
            v.push('r');
        },
        8 => {
            v.push('r');
            v.push('i');
            v.push('g');
            v.push('h');
            v.push('t');
            v.push('s');
            v.push('h');
            v.push('o');
            v.push('u');
            v.push('l');
            v.push('d');
            v.push('e');
            v.push('r');
        },
        9 => {
            v.push('r');
            v.push('i');
            v.push('g');
            v.push('h');
            v.push('t');
            v.push('t');
            v.push('r');
            v.push('i');
            v.push('g');
            v.push('g');
            v.push('e');
            v.push('r');
        },
        10 => {
            v.push('b');
            v.push('a');
            v.push('c');
            v.push('k');
        },
        11 => {
            v.push('s');
            v.push('t');
            v.push('a');
            v.push('r');
            v.push('t');
        },
        12 => {
            v.push('g');
            v.push('u');
            v.push('i');
            v.push('d');
            v.push('e');
        },
        13 => {
            v.push('l');
            v.push('e');
            v.push('f');
            v.push('t');
            v.push('s');
            v.push('t');
            v.push('i');
            v.push('c');
            v.push('k');
        },
        14 => {
            v.push('r');
            v.push('i');
            v.push('g');
            v.push('h');
            v.push('t');
            v.push('s');
            v.push('t');
            v.push('i');
            v.push('c');
            v.push('k');
        },
        15 => {
            v.push('d');
            v.push('p');
            v.push('u');
            v.push('p');
        },
        16 => {
            v.push('d');
            v.push('p');
            v.push('d');
            v.push('o');
            v.push('w');
            v.push('n');
        },
        17 => {
            v.push('d');
            v.push('p');
            v.push('l');
            v.push('e');
            v.push('f');
            v.push('t');
        },
        18 => {
            v.push('d');
            v.push('p');
            v.push('r');
            v.push('i');
            v.push('g');
            v.push('h');
            v.push('t');
        },
        20 => {
            v.push('l');
            v.push('e');
            v.push('f');
            v.push('t');
            v.push('x');
        },
        21 => {
            v.push('l');
            v.push('e');
            v.push('f');
            v.push('t');
            v.push('y');
        },
        22 => {
            v.push('l');
            v.push('e');
            v.push('f');
            v.push('t');
            v.push('z');
        },
        23 => {
            v.push('r');
            v.push('i');
            v.push('g');
            v.push('h');
            v.push('t');
            v.push('x');
        },
        24 => {
            v.push('r');
            v.push('i');
            v.push('g');
            v.push('h');
            v.push('t');
            v.push('y');
        },
        25 => {
            v.push('r');
            v.push('i');
            v.push('g');
            v.push('h');
            v.push('t');
            v.push('z');
        },
        26 => {
            v.push('d');
            v.push('p');
            v.push('a');
            v.push('d');
            v.push('x');
        },
        27 => {
            v.push('d');
            v.push('p');
            v.push('a');
            v.push('d');
            v.push('y');
        },
        _ => {},
    }
    proof {
        assert(v@ =~= slot_key(i as int));
    }
    v
}

/// The first control, from slot `i` on, whose key is `k`.
pub open spec fn control_of_key_from(k: Seq<char>, i: int) -> Option<AxisOrBtn>
    decreases NUM_SLOTS - i,
{
    if i >= NUM_SLOTS || i < 0 {
        None
    } else if !is_unknown_slot(i) && slot_key(i) == k {
        Some(slot_control(i))
    } else {
        control_of_key_from(k, i + 1)
    }
}

/// The control whose key is `k`.
pub open spec fn control_of_key(k: Seq<char>) -> Option<AxisOrBtn> {
    control_of_key_from(k, 0)
}

pub open spec fn digit_char(d: int) -> char {
    if d == 0 {
        '0'
    } else if d == 1 {
        '1'
    } else if d == 2 {
        '2'
    } else if d == 3 {
        '3'
    } else if d == 4 {
        '4'
    } else if d == 5 {
        '5'
    } else if d == 6 {
        '6'
    } else if d == 7 {
        '7'
    } else if d == 8 {
        '8'
    } else {
        '9'
    }
}

pub open spec fn is_digit(c: char) -> bool {
    c == '0' || c == '1' || c == '2' || c == '3' || c == '4' || c == '5' || c == '6' || c == '7'
        || c == '8' || c == '9'
}

pub open spec fn digit_value(c: char) -> nat {
    if c == '1' {
        1
    } else if c == '2' {
        2
    } else if c == '3' {
        3
    } else if c == '4' {
        4
    } else if c == '5' {
        5
    } else if c == '6' {
        6
    } else if c == '7' {
        7
    } else if c == '8' {
        8
    } else if c == '9' {
        9
    } else {
        0
    }
}

pub open spec fn all_digits(d: Seq<char>) -> bool {
    forall|i: int| 0 <= i < d.len() ==> is_digit(#[trigger] d[i])
}

/// The number that a string of decimal digits writes.
pub open spec fn decimal_value(d: Seq<char>) -> nat
    decreases d.len(),
{
    if d.len() == 0 {
        0
    } else {
        decimal_value(d.drop_last()) * 10 + digit_value(d.last())
    }
}

/// The decimal digits of `n`, most significant first, no leading zero.
pub open spec fn decimal(n: nat) -> Seq<char>
    decreases n,
{
    if n < 10 {
        seq![digit_char(n as int)]
    } else {
        decimal(n / 10).push(digit_char((n % 10) as int))
    }
}

pub open spec fn hex_char(d: int) -> char {
    if d < 10 {
        digit_char(d)
    } else if d == 10 {
        'a'
    } else if d == 11 {
        'b'
    } else if d == 12 {
        'c'
    } else if d == 13 {
        'd'
    } else if d == 14 {
        'e'
    } else {
        'f'
    }
}

pub open spec fn is_hex(c: char) -> bool {
    is_digit(c) || c == 'a' || c == 'b' || c == 'c' || c == 'd' || c == 'e' || c == 'f' || c == 'A'
        || c == 'B' || c == 'C' || c == 'D' || c == 'E' || c == 'F'
}

pub open spec fn hex_digit_value(c: char) -> nat {
    if c == 'a' || c == 'A' {
        10
    } else if c == 'b' || c == 'B' {
        11
    } else if c == 'c' || c == 'C' {
        12
    } else if c == 'd' || c == 'D' {
        13
    } else if c == 'e' || c == 'E' {
        14
    } else if c == 'f' || c == 'F' {
        15
    } else {
        digit_value(c)
    }
}

pub open spec fn all_hex(s: Seq<char>) -> bool {
    forall|i: int| 0 <= i < s.len() ==> is_hex(#[trigger] s[i])
}

/// The number that a string of hex digits writes.
pub open spec fn hex_value(s: Seq<char>) -> nat
    decreases s.len(),
{
    if s.len() == 0 {
        0
    } else {
        hex_value(s.drop_last()) * 16 + hex_digit_value(s.last())
    }
}

/// The last `n` hex digits of `u`, lower case, most significant first.
pub open spec fn hex_digits(u: nat, n: nat) -> Seq<char>
    decreases n,
{
    if n == 0 {
        seq![]
    } else {
        hex_digits(u / 16, (n - 1) as nat).push(hex_char((u % 16) as int))
    }
}

/// Relies on uuid's `Uuid::from_u128` and the `Display` of `Uuid::simple`:
/// the 32 lower-case hex digits of the 128-bit value, most significant first.
#[verifier::external_body]
fn uuid_simple_string(u: u128) -> (r: String)
    ensures
        r@ == hex_digits(u as nat, 32),
{
    uuid::Uuid::from_u128(u).simple().to_string()
}

#[verifier::external_type_specification]
#[verifier::external_body]
pub struct ExUuidError(uuid::Error);

/// Relies on uuid's `Uuid::parse_str` and `Uuid::as_u128`: a string of 32
/// characters parses exactly when each is a hex digit (either case), to the
/// value that the digits write.
#[verifier::external_body]
fn parse_uuid(s: &str) -> (r: Result<u128, uuid::Error>)
    ensures
        s@.len() == 32 ==> (r is Ok <==> all_hex(s@)),
        s@.len() == 32 && r is Ok ==> r->Ok_0 == hex_value(s@),
{
    match uuid::Uuid::parse_str(s) {
        Ok(u) => Ok(u.as_u128()),
        Err(e) => Err(e),
    }
}

/// Relies on std's `FromIterator<char>` for `String`: the characters in
/// order.
#[verifier::external_body]
pub(crate) fn string_from_chars(v: &Vec<char>) -> (r: String)
    ensures
        r@ == v@,
{
    v.iter().collect()
}

/// The characters of a string.
pub fn chars_of(s: &str) -> (r: Vec<char>)
    ensures
        r@ == s@,
{
    let n = s.unicode_len();
    let mut v: Vec<char> = Vec::new();
    let mut i: usize = 0;
    while i < n
        invariant
            n == s@.len(),
            i <= n,
            v@ == s@.take(i as int),
        decreases n - i,
    {
        v.push(s.get_char(i));
        proof {
            assert(v@ =~= s@.take(i + 1));
        }
        i = i + 1;
    }
    proof {
        assert(v@ =~= s@);
    }
    v
}

/// The fields of a text split at commas, built up to position `n`: the
/// fields that a comma closed, and the open one.
pub open spec fn split_step(t: Seq<char>, sep: char, n: int) -> (Seq<Seq<char>>, Seq<char>)
    decreases n,
{
    if n <= 0 {
        (seq![], seq![])
    } else {
        let (done, cur) = split_step(t, sep, n - 1);
        if t[n - 1] == sep {
            (done.push(cur), seq![])
        } else {
            (done, cur.push(t[n - 1]))
        }
    }
}

/// The pieces of a text between separators.
pub open spec fn split(t: Seq<char>, sep: char) -> Seq<Seq<char>> {
    let (done, cur) = split_step(t, sep, t.len() as int);
    done.push(cur)
}

/// The comma-separated fields of a text.
pub open spec fn fields(t: Seq<char>) -> Seq<Seq<char>> {
    split(t, ',')
}

/// Start and end of each piece of `t` between separators.
fn piece_ranges(t: &Vec<char>, sep: char) -> (r: Vec<(usize, usize)>)
    ensures
        r@.len() == split(t@, sep).len(),
        forall|k: int| 0 <= k < r@.len() ==> (#[trigger] r@[k]).0 <= r@[k].1 <= t@.len(),
        forall|k: int|
            0 <= k < r@.len() ==> t@.subrange(r@[k].0 as int, r@[k].1 as int) == #[trigger] split(
                t@,
                sep,
            )[k],
{
    let mut r: Vec<(usize, usize)> = Vec::new();
    let mut start: usize = 0;
    let mut i: usize = 0;
    while i < t.len()
        invariant
            i <= t@.len(),
            start <= i,
            r@.len() == split_step(t@, sep, i as int).0.len(),
            forall|k: int| 0 <= k < r@.len() ==> (#[trigger] r@[k]).0 <= r@[k].1 <= i,
            forall|k: int|
                0 <= k < r@.len() ==> t@.subrange(r@[k].0 as int, r@[k].1 as int)
                    == #[trigger] split_step(t@, sep, i as int).0[k],
            t@.subrange(start as int, i as int) == split_step(t@, sep, i as int).1,
        decreases t@.len() - i,
    {
        let ghost prev = split_step(t@, sep, i as int);
        let ghost old_r = r@;
        if t[i] == sep {
            r.push((start, i));
            proof {
                assert(split_step(t@, sep, i + 1).0 == prev.0.push(prev.1));
                assert forall|k: int| 0 <= k < r@.len() implies t@.subrange(r@[k].0 as int, r@[k].1 as int) == #[trigger] split_step(t@, sep, i + 1,
                ).0[k] by {
                    if k < old_r.len() {
                        assert(r@[k] == old_r[k]);
                        assert(t@.subrange(old_r[k].0 as int, old_r[k].1 as int)
                            == split_step(t@, sep, i as int).0[k]);
                    } else {
                        assert(r@[k] == (start, i));
                    }
                }
            }
            start = i + 1;
            proof {
                assert(t@.subrange(start as int, i + 1) =~= Seq::<char>::empty());
            }
        } else {
            proof {
                assert(split_step(t@, sep, i + 1).0 == prev.0);
                assert forall|k: int| 0 <= k < r@.len() implies t@.subrange(r@[k].0 as int, r@[k].1 as int) == #[trigger] split_step(t@, sep, i + 1,
                ).0[k] by {
                    assert(t@.subrange(r@[k].0 as int, r@[k].1 as int) == split_step(t@, sep, i as int,
                    ).0[k]);
                }
                assert(t@.subrange(start as int, i + 1) =~= t@.subrange(start as int, i as int).push(
                    t@[i as int],
                ));
            }
        }
        i = i + 1;
    }
    let ghost old_r = r@;
    r.push((start, i));
    proof {
        assert(i == t@.len());
        assert forall|k: int| 0 <= k < r@.len() implies t@.subrange(r@[k].0 as int, r@[k].1 as int) == #[trigger] split(t@, sep)[k] by {
            if k < old_r.len() {
                assert(r@[k] == old_r[k]);
                assert(t@.subrange(old_r[k].0 as int, old_r[k].1 as int) == split_step(t@, sep, t@.len() as int,
                ).0[k]);
            }
        }
    }
    r
}

/// The first position of `c` in `s`.
pub open spec fn first_index(s: Seq<char>, c: char) -> Option<int> {
    if exists|j: int| 0 <= j < s.len() && s[j] == c && (forall|m: int| 0 <= m < j ==> s[m] != c) {
        Some(
            choose|j: int| 0 <= j < s.len() && s[j] == c && (forall|m: int| 0 <= m < j ==> s[m] != c),
        )
    } else {
        None
    }
}

/// The first position of `x` in `s`.
pub open spec fn first_pos(s: Seq<EvCode>, x: EvCode) -> Option<int> {
    if exists|j: int| 0 <= j < s.len() && s[j] == x && (forall|m: int| 0 <= m < j ==> s[m] != x) {
        Some(
            choose|j: int| 0 <= j < s.len() && s[j] == x && (forall|m: int| 0 <= m < j ==> s[m] != x),
        )
    } else {
        None
    }
}

/// A token without its optional sign and inversion marks.
pub open spec fn token_core(v: Seq<char>) -> Seq<char> {
    let v1 = if v.len() > 0 && (v[0] == '+' || v[0] == '-') {
        v.skip(1)
    } else {
        v
    };
    if v1.len() > 0 && v1.last() == '~' {
        v1.drop_last()
    } else {
        v1
    }
}

/// The native code that a token names: `None` for a hat token.
pub open spec fn parse_token(v: Seq<char>, btns: Seq<EvCode>, axes: Seq<EvCode>) -> Result<
    Option<EvCode>,
    MappingError,
> {
    let core = token_core(v);
    if core.len() == 0 {
        Err(MappingError::Parser)
    } else if core[0] == 'h' {
        Ok(None)
    } else if core[0] != 'b' && core[0] != 'a' {
        Err(MappingError::Parser)
    } else {
        let d = core.skip(1);
        let list = if core[0] == 'b' {
            btns
        } else {
            axes
        };
        if d.len() == 0 || !all_digits(d) {
            Err(MappingError::Parser)
        } else if decimal_value(d) < list.len() {
            Ok(Some(list[decimal_value(d) as int]))
        } else {
            Err(MappingError::UnknownElement)
        }
    }
}

/// What a `key:token` field gives: a control and its code, or nothing for a
/// field that is skipped.
pub open spec fn parse_entry(f: Seq<char>, btns: Seq<EvCode>, axes: Seq<EvCode>) -> Result<
    Option<(AxisOrBtn, EvCode)>,
    MappingError,
> {
    if f.len() == 0 {
        Ok(None)
    } else {
        match first_index(f, ':') {
            None => Err(MappingError::Parser),
            Some(j) => match control_of_key(f.take(j)) {
                None => Ok(None),
                Some(x) => match parse_token(f.skip(j + 1), btns, axes) {
                    Err(e) => Err(e),
                    Ok(None) => Ok(None),
                    Ok(Some(c)) => Ok(Some((x, c))),
                },
            },
        }
    }
}

/// Whether some slot of the tables holds code `c`.
pub open spec fn holds_code(b: Seq<Option<EvCode>>, a: Seq<Option<EvCode>>, c: EvCode) -> bool {
    exists|i: int| 0 <= i < NUM_SLOTS && slot(b, a, i) == Some(c)
}

/// The tables with control `x` put on code `c`: a control given twice is
/// malformed, a code given twice is a duplicate.
pub open spec fn add_entry(
    b: Seq<Option<EvCode>>,
    a: Seq<Option<EvCode>>,
    x: AxisOrBtn,
    c: EvCode,
) -> Result<(Seq<Option<EvCode>>, Seq<Option<EvCode>>), MappingError> {
    if code_of(b, a, x) is Some {
        Err(MappingError::Parser)
    } else if holds_code(b, a, c) {
        Err(MappingError::DuplicateAxis)
    } else {
        match x {
            AxisOrBtn::Btn(btn) => Ok((b.update(btn.ord() as int, Some(c)), a)),
            AxisOrBtn::Axis(axis) => Ok((b, a.update(axis.ord() as int, Some(c)))),
        }
    }
}

pub open spec fn empty_tables() -> (Seq<Option<EvCode>>, Seq<Option<EvCode>>) {
    (Seq::new(NUM_BUTTONS as nat, |i: int| None), Seq::new(NUM_AXES as nat, |i: int| None))
}

/// The tables that the fields from the third up to field `n` build.
pub open spec fn parse_entries(fs: Seq<Seq<char>>, n: int, btns: Seq<EvCode>, axes: Seq<EvCode>) -> Result<
    (Seq<Option<EvCode>>, Seq<Option<EvCode>>),
    MappingError,
>
    decreases n,
{
    if n <= 2 {
        Ok(empty_tables())
    } else {
        match parse_entries(fs, n - 1, btns, axes) {
            Err(e) => Err(e),
            Ok((b, a)) => match parse_entry(fs[n - 1], btns, axes) {
                Err(e) => Err(e),
                Ok(None) => Ok((b, a)),
                Ok(Some((x, c))) => add_entry(b, a, x, c),
            },
        }
    }
}

/// What a mapping text gives: the button table, the axis table, the name
/// and the UUID.
pub open spec fn spec_parse(t: Seq<char>, btns: Seq<EvCode>, axes: Seq<EvCode>) -> Result<
    (Seq<Option<EvCode>>, Seq<Option<EvCode>>, Seq<char>, u128),
    MappingError,
> {
    let fs = fields(t);
    if fs.len() < 2 || fs[0].len() != 32 || !all_hex(fs[0]) {
        Err(MappingError::Parser)
    } else {
        match parse_entries(fs, fs.len() as int, btns, axes) {
            Err(e) => Err(e),
            Ok((b, a)) => Ok((b, a, fs[1], hex_value(fs[0]) as u128)),
        }
    }
}

/// Whether `t[s..e]` is `k`.
fn range_eq(t: &Vec<char>, s: usize, e: usize, k: &Vec<char>) -> (r: bool)
    requires
        s <= e <= t@.len(),
    ensures
        r == (t@.subrange(s as int, e as int) == k@),
{
    if e - s != k.len() {
        return false;
    }
    let mut i: usize = 0;
    while i < k.len()
        invariant
            s <= e <= t@.len(),
            e - s == k@.len(),
            i <= k@.len(),
            forall|m: int| 0 <= m < i ==> t@[s + m] == k@[m],
        decreases k@.len() - i,
    {
        if t[s + i] != k[i] {
            proof {
                assert(t@.subrange(s as int, e as int)[i as int] != k@[i as int]);
            }
            return false;
        }
        i = i + 1;
    }
    proof {
        assert(t@.subrange(s as int, e as int) =~= k@);
    }
    true
}

/// The control of slot `i`.
fn control_at(i: usize) -> (r: AxisOrBtn)
    requires
        i < NUM_SLOTS,
    ensures
        r == slot_control(i as int),
{
    if i < NUM_BUTTONS {
        AxisOrBtn::Btn(Button::from_ordinal(i))
    } else {
        AxisOrBtn::Axis(Axis::from_ordinal(i - NUM_BUTTONS))
    }
}

/// The control whose key is `t[s..e]`.
fn control_of_key_range(t: &Vec<char>, s: usize, e: usize) -> (r: Option<AxisOrBtn>)
    requires
        s <= e <= t@.len(),
    ensures
        r == control_of_key(t@.subrange(s as int, e as int)),
{
    let ghost k = t@.subrange(s as int, e as int);
    let mut i: usize = 0;
    while i < NUM_SLOTS
        invariant
            i <= NUM_SLOTS,
            s <= e <= t@.len(),
            k == t@.subrange(s as int, e as int),
            control_of_key(k) == control_of_key_from(k, i as int),
        decreases NUM_SLOTS - i,
    {
        let unknown = i == Button::Unknown.ordinal() || i == NUM_BUTTONS + Axis::Unknown.ordinal();
        if !unknown && range_eq(t, s, e, &slot_key_chars(i)) {
            return Some(control_at(i));
        }
        i = i + 1;
    }
    None
}

/// The first position of `c` in `t[s..e]`, counted from `s`.
fn find_char(t: &Vec<char>, s: usize, e: usize, c: char) -> (r: Option<usize>)
    requires
        s <= e <= t@.len(),
    ensures
        r matches Some(j) ==> s <= j < e && first_index(t@.subrange(s as int, e as int), c) == Some(
            j - s,
        ),
        r is None ==> first_index(t@.subrange(s as int, e as int), c) is None,
{
    let ghost f = t@.subrange(s as int, e as int);
    let mut j: usize = s;
    while j < e
        invariant
            s <= j <= e <= t@.len(),
            f == t@.subrange(s as int, e as int),
            forall|m: int| 0 <= m < j - s ==> f[m] != c,
        decreases e - j,
    {
        if t[j] == c {
            proof {
                let w = (j - s) as int;
                assert(f[w] == c);
                assert forall|v: int|
                    0 <= v < f.len() && f[v] == c && (forall|m: int| 0 <= m < v ==> f[m] != c) implies v
                    == w by {
                    if v < w {
                        assert(f[v] != c);
                    } else if v > w {
                        assert(f[w] != c);
                    }
                }
            }
            return Some(j);
        }
        j = j + 1;
    }
    None
}

/// The value of a decimal digit.
fn digit_of(c: char) -> (r: Option<u32>)
    ensures
        r is Some <==> is_digit(c),
        r matches Some(d) ==> d == digit_value(c) && d < 10,
{
    match c {
        '0' => Some(0),
        '1' => Some(1),
        '2' => Some(2),
        '3' => Some(3),
        '4' => Some(4),
        '5' => Some(5),
        '6' => Some(6),
        '7' => Some(7),
        '8' => Some(8),
        '9' => Some(9),
        _ => None,
    }
}

/// The native code that the token `t[s..e]` names.
fn parse_token_range(t: &Vec<char>, s: usize, e: usize, btns: &Vec<EvCode>, axes: &Vec<EvCode>) -> (r:
    Result<Option<EvCode>, MappingError>)
    requires
        s <= e <= t@.len(),
    ensures
        r == parse_token(t@.subrange(s as int, e as int), btns@, axes@),
{
    let ghost v = t@.subrange(s as int, e as int);
    let s1 = if s < e && (t[s] == '+' || t[s] == '-') {
        s + 1
    } else {
        s
    };
    let e1 = if s1 < e && t[e - 1] == '~' {
        e - 1
    } else {
        e
    };
    proof {
        assert(token_core(v) =~= t@.subrange(s1 as int, e1 as int));
    }
    if s1 == e1 {
        return Err(MappingError::Parser);
    }
    let kind = t[s1];
    if kind == 'h' {
        return Ok(None);
    }
    if kind != 'b' && kind != 'a' {
        return Err(MappingError::Parser);
    }
    let ds = s1 + 1;
    proof {
        assert(token_core(v)[0] == kind);
        assert(token_core(v).skip(1) =~= t@.subrange(ds as int, e1 as int));
    }
    if ds == e1 {
        return Err(MappingError::Parser);
    }
    let list: &Vec<EvCode> = if kind == 'b' {
        btns
    } else {
        axes
    };
    let mut value: u128 = 0;
    let mut big = false;
    let mut i: usize = ds;
    while i < e1
        invariant
            s <= s1 < ds <= i <= e1 <= e <= t@.len(),
            v == t@.subrange(s as int, e as int),
            token_core(v) == t@.subrange(s1 as int, e1 as int),
            token_core(v)[0] == kind,
            kind == 'b' || kind == 'a',
            list@ == (if kind == 'b' {
                btns@
            } else {
                axes@
            }),
            token_core(v).skip(1) == t@.subrange(ds as int, e1 as int),
            all_digits(t@.subrange(ds as int, i as int)),
            !big ==> value == decimal_value(t@.subrange(ds as int, i as int)) && value
                <= 0x1_0000_0000_0000_0000 * 10,
            big ==> decimal_value(t@.subrange(ds as int, i as int)) >= list@.len(),
        decreases e1 - i,
    {
        let ghost prev = t@.subrange(ds as int, i as int);
        let ghost next = t@.subrange(ds as int, i + 1);
        proof {
            assert(next.drop_last() =~= prev);
            assert(next.last() == t@[i as int]);
        }
        match digit_of(t[i]) {
            None => {
                proof {
                    assert(t@.subrange(ds as int, e1 as int)[i - ds] == t@[i as int]);
                    assert(!all_digits(t@.subrange(ds as int, e1 as int)));
                }
                return Err(MappingError::Parser);
            },
            Some(d) => {
                if !big {
                    if value >= list.len() as u128 {
                        big = true;
                    } else {
                        value = value * 10 + d as u128;
                    }
                }
            },
        }
        proof {
            assert forall|m: int| 0 <= m < next.len() implies is_digit(#[trigger] next[m]) by {
                if m < prev.len() {
                    assert(next[m] == prev[m]);
                }
            }
        }
        i = i + 1;
    }
    if big || value >= list.len() as u128 {
        Err(MappingError::UnknownElement)
    } else {
        Ok(Some(list[value as usize]))
    }
}

/// What the field `t[s..e]` gives.
fn parse_entry_range(t: &Vec<char>, s: usize, e: usize, btns: &Vec<EvCode>, axes: &Vec<EvCode>) -> (r:
    Result<Option<(AxisOrBtn, EvCode)>, MappingError>)
    requires
        s <= e <= t@.len(),
    ensures
        r == parse_entry(t@.subrange(s as int, e as int), btns@, axes@),
{
    let ghost f = t@.subrange(s as int, e as int);
    if s == e {
        return Ok(None);
    }
    match find_char(t, s, e, ':') {
        None => Err(MappingError::Parser),
        Some(j) => {
            proof {
                assert(f.take(j - s) =~= t@.subrange(s as int, j as int));
                assert(f.skip(j - s + 1) =~= t@.subrange(j + 1, e as int));
            }
            match control_of_key_range(t, s, j) {
                None => Ok(None),
                Some(x) => match parse_token_range(t, j + 1, e, btns, axes) {
                    Err(err) => Err(err),
                    Ok(None) => Ok(None),
                    Ok(Some(c)) => Ok(Some((x, c))),
                },
            }
        },
    }
}

/// A control that a key names is never `Unknown`.
proof fn lemma_key_control_known(k: Seq<char>, i: int)
    requires
        control_of_key_from(k, i) is Some,
    ensures
        control_of_key_from(k, i) != Some(AxisOrBtn::Btn(Button::Unknown)),
        control_of_key_from(k, i) != Some(AxisOrBtn::Axis(Axis::Unknown)),
    decreases NUM_SLOTS - i,
{
    if 0 <= i < NUM_SLOTS && !(!is_unknown_slot(i) && slot_key(i) == k) {
        lemma_key_control_known(k, i + 1);
    }
}

/// Putting a known control on a code that no slot holds keeps the tables
/// well formed.
proof fn lemma_add_entry_wf(b: Seq<Option<EvCode>>, a: Seq<Option<EvCode>>, x: AxisOrBtn, c: EvCode)
    requires
        tables_wf(b, a),
        x != AxisOrBtn::Btn(Button::Unknown),
        x != AxisOrBtn::Axis(Axis::Unknown),
        add_entry(b, a, x, c) is Ok,
    ensures
        tables_wf(add_entry(b, a, x, c)->Ok_0.0, add_entry(b, a, x, c)->Ok_0.1),
{
    let (b2, a2) = add_entry(b, a, x, c)->Ok_0;
    let w = slot_of(x);
    assert forall|i: int| 0 <= i < NUM_SLOTS && i != w implies slot(b2, a2, i) == slot(b, a, i) by {
    }
    assert(slot(b2, a2, w) == Some(c));
    assert forall|i: int, j: int|
        0 <= i < b2.len() + a2.len() && 0 <= j < b2.len() + a2.len() && i != j && (#[trigger] slot(
            b2,
            a2,
            i,
        )) is Some implies slot(b2, a2, i) != #[trigger] slot(b2, a2, j) by {
        if i == w {
            assert(slot(b2, a2, j) == slot(b, a, j));
        } else if j == w {
            assert(slot(b2, a2, i) == slot(b, a, i));
        } else {
            assert(slot(b2, a2, i) == slot(b, a, i));
            assert(slot(b2, a2, j) == slot(b, a, j));
        }
    }
}

/// Puts control `x` on code `c` in the tables, as `add_entry` says.
fn add_entry_exec(b: &mut Vec<Option<EvCode>>, a: &mut Vec<Option<EvCode>>, x: AxisOrBtn, c: EvCode) -> (r:
    Result<(), MappingError>)
    requires
        tables_wf(old(b)@, old(a)@),
        x != AxisOrBtn::Btn(Button::Unknown),
        x != AxisOrBtn::Axis(Axis::Unknown),
    ensures
        match add_entry(old(b)@, old(a)@, x, c) {
            Ok((b2, a2)) => r is Ok && final(b)@ == b2 && final(a)@ == a2 && tables_wf(b2, a2),
            Err(e) => r == Err::<(), MappingError>(e),
        },
{
    let taken = match x {
        AxisOrBtn::Btn(btn) => b[btn.ordinal()].is_some(),
        AxisOrBtn::Axis(axis) => a[axis.ordinal()].is_some(),
    };
    if taken {
        return Err(MappingError::Parser);
    }
    let mut i: usize = 0;
    while i < NUM_SLOTS
        invariant
            i <= NUM_SLOTS,
            tables_wf(b@, a@),
            b@ == old(b)@,
            a@ == old(a)@,
            code_of(b@, a@, x) is None,
            forall|j: int| 0 <= j < i ==> slot(b@, a@, j) != Some(c),
        decreases NUM_SLOTS - i,
    {
        let held = if i < NUM_BUTTONS {
            b[i]
        } else {
            a[i - NUM_BUTTONS]
        };
        if held == Some(c) {
            proof {
                assert(slot(b@, a@, i as int) == Some(c));
            }
            return Err(MappingError::DuplicateAxis);
        }
        i = i + 1;
    }
    proof {
        lemma_add_entry_wf(b@, a@, x, c);
    }
    match x {
        AxisOrBtn::Btn(btn) => b.set(btn.ordinal(), Some(c)),
        AxisOrBtn::Axis(axis) => a.set(axis.ordinal(), Some(c)),
    }
    Ok(())
}

/// An error in the entries stays the error of every longer run.
proof fn lemma_parse_entries_err(
    fs: Seq<Seq<char>>,
    k: int,
    n: int,
    btns: Seq<EvCode>,
    axes: Seq<EvCode>,
)
    requires
        k <= n,
        parse_entries(fs, k, btns, axes) is Err,
    ensures
        parse_entries(fs, n, btns, axes) == parse_entries(fs, k, btns, axes),
    decreases n - k,
{
    if k < n {
        lemma_parse_entries_err(fs, k, n - 1, btns, axes);
    }
}

/// The characters `t[s..e]`.
fn sub_chars(t: &Vec<char>, s: usize, e: usize) -> (r: Vec<char>)
    requires
        s <= e <= t@.len(),
    ensures
        r@ == t@.subrange(s as int, e as int),
{
    let mut v: Vec<char> = Vec::new();
    let mut i: usize = s;
    while i < e
        invariant
            s <= i <= e <= t@.len(),
            v@ == t@.subrange(s as int, i as int),
        decreases e - i,
    {
        v.push(t[i]);
        proof {
            assert(v@ =~= t@.subrange(s as int, i + 1));
        }
        i = i + 1;
    }
    v
}

/// Parses a mapping text for a device with the given native buttons and
/// axes.
pub fn parse_sdl_mapping(line: &str, buttons: &Vec<EvCode>, axes: &Vec<EvCode>) -> (r: Result<
    Mapping,
    MappingError,
>)
    ensures
        match (r, spec_parse(line@, buttons@, axes@)) {
            (Ok(m), Ok((b, a, name, uuid))) => {
                &&& m.wf()
                &&& m.btn_view() == b
                &&& m.axis_view() == a
                &&& m.name_view() == name
                &&& m.uuid_view() == uuid
                &&& !m.is_default_view()
            },
            (Err(e), Err(f)) => e == f,
            _ => false,
        },
{
    let t = chars_of(line);
    let ranges = piece_ranges(&t, ',');
    let ghost fs = fields(t@);
    if ranges.len() < 2 {
        return Err(MappingError::Parser);
    }
    let (s0, e0) = ranges[0];
    proof {
        assert(t@.subrange(s0 as int, e0 as int) == fs[0]);
    }
    if e0 - s0 != 32 {
        return Err(MappingError::Parser);
    }
    let uuid_text = string_from_chars(&sub_chars(&t, s0, e0));
    let uuid = match parse_uuid(uuid_text.as_str()) {
        Ok(u) => u,
        Err(_) => {
            return Err(MappingError::Parser);
        },
    };
    let (s1, e1) = ranges[1];
    proof {
        assert(t@.subrange(s1 as int, e1 as int) == fs[1]);
    }
    let name = string_from_chars(&sub_chars(&t, s1, e1));
    let mut b = crate::mapping::empty_table(NUM_BUTTONS);
    let mut a = crate::mapping::empty_table(NUM_AXES);
    proof {
        assert(b@ =~= empty_tables().0);
        assert(a@ =~= empty_tables().1);
        assert forall|i: int, j: int|
            0 <= i < b@.len() + a@.len() && 0 <= j < b@.len() + a@.len() && i != j && (#[trigger] slot(
                b@,
                a@,
                i,
            )) is Some implies slot(b@, a@, i) != #[trigger] slot(b@, a@, j) by {
        }
    }
    let mut k: usize = 2;
    while k < ranges.len()
        invariant
            2 <= k <= ranges@.len() == fs.len(),
            fs == fields(t@),
            forall|q: int| 0 <= q < ranges@.len() ==> (#[trigger] ranges@[q]).0 <= ranges@[q].1 <= t@.len(),
            forall|q: int|
                0 <= q < ranges@.len() ==> t@.subrange(ranges@[q].0 as int, ranges@[q].1 as int)
                    == #[trigger] fs[q],
            parse_entries(fs, k as int, buttons@, axes@) == Ok::<_, MappingError>((b@, a@)),
            tables_wf(b@, a@),
            t@ == line@,
            fs[0].len() == 32,
            all_hex(fs[0]),
            uuid == hex_value(fs[0]),
            name@ == fs[1],
        decreases ranges@.len() - k,
    {
        let (s, e) = ranges[k];
        proof {
            assert(t@.subrange(s as int, e as int) == fs[k as int]);
        }
        match parse_entry_range(&t, s, e, buttons, axes) {
            Err(err) => {
                proof {
                    assert(parse_entries(fs, k + 1, buttons@, axes@) == Err::<
                        (Seq<Option<EvCode>>, Seq<Option<EvCode>>),
                        MappingError,
                    >(err));
                    lemma_parse_entries_err(fs, k + 1, fs.len() as int, buttons@, axes@);
                }
                return Err(err);
            },
            Ok(None) => {},
            Ok(Some((x, c))) => {
                proof {
                    let j = first_index(fs[k as int], ':')->Some_0;
                    lemma_key_control_known(fs[k as int].take(j), 0);
                }
                match add_entry_exec(&mut b, &mut a, x, c) {
                    Err(err) => {
                        proof {
                            assert(parse_entries(fs, k + 1, buttons@, axes@) == Err::<
                                (Seq<Option<EvCode>>, Seq<Option<EvCode>>),
                                MappingError,
                            >(err));
                            lemma_parse_entries_err(fs, k + 1, fs.len() as int, buttons@, axes@);
                        }
                        return Err(err);
                    },
                    Ok(()) => {},
                }
            },
        }
        k = k + 1;
    }
    Ok(Mapping::from_parts(b, a, name, uuid))
}

/// The token that writes code `c`: `b` and its position among the device's
/// buttons, else `a` and its position among its axes.
pub open spec fn code_token(c: EvCode, btns: Seq<EvCode>, axes: Seq<EvCode>) -> Option<Seq<char>> {
    match first_pos(btns, c) {
        Some(p) => Some(seq!['b'] + decimal(p as nat)),
        None => match first_pos(axes, c) {
            Some(p) => Some(seq!['a'] + decimal(p as nat)),
            None => None,
        },
    }
}

/// The first error among the slots below `n`: a code that the device does
/// not have, or a code already in an earlier slot.
pub open spec fn slots_error(
    b: Seq<Option<EvCode>>,
    a: Seq<Option<EvCode>>,
    btns: Seq<EvCode>,
    axes: Seq<EvCode>,
    n: int,
) -> Option<MappingError>
    decreases n,
{
    if n <= 0 {
        None
    } else {
        match slots_error(b, a, btns, axes, n - 1) {
            Some(e) => Some(e),
            None => match slot(b, a, n - 1) {
                None => None,
                Some(c) => if code_token(c, btns, axes) is None {
                    Some(MappingError::UnknownElement)
                } else if exists|j: int| 0 <= j < n - 1 && slot(b, a, j) == Some(c) {
                    Some(MappingError::DuplicateAxis)
                } else {
                    None
                },
            },
        }
    }
}

/// The `key:token,` entries of the slots below `n`, in slot order.
pub open spec fn entries_text(
    b: Seq<Option<EvCode>>,
    a: Seq<Option<EvCode>>,
    btns: Seq<EvCode>,
    axes: Seq<EvCode>,
    n: int,
) -> Seq<char>
    decreases n,
{
    if n <= 0 {
        seq![]
    } else {
        entries_text(b, a, btns, axes, n - 1) + match slot(b, a, n - 1) {
            Some(c) => match code_token(c, btns, axes) {
                Some(tok) => slot_key(n - 1) + seq![':'] + tok + seq![','],
                None => seq![],
            },
            None => seq![],
        }
    }
}

/// The mapping text of tables, a name and a UUID.
pub open spec fn sdl_text(
    b: Seq<Option<EvCode>>,
    a: Seq<Option<EvCode>>,
    btns: Seq<EvCode>,
    axes: Seq<EvCode>,
    name: Seq<char>,
    uuid: u128,
) -> Seq<char> {
    hex_digits(uuid as nat, 32) + seq![','] + name + seq![','] + entries_text(
        b,
        a,
        btns,
        axes,
        NUM_SLOTS as int,
    )
}

pub open spec fn no_comma(s: Seq<char>) -> bool {
    forall|i: int| 0 <= i < s.len() ==> s[i] != ','
}

/// What building a mapping from user data gives: its text, or the first
/// error.
pub open spec fn spec_from_data(
    b: Seq<Option<EvCode>>,
    a: Seq<Option<EvCode>>,
    btns: Seq<EvCode>,
    axes: Seq<EvCode>,
    name: Seq<char>,
    uuid: u128,
) -> Result<Seq<char>, MappingError> {
    if !no_comma(name) {
        Err(MappingError::Parser)
    } else if b[Button::Unknown.ord() as int] is Some || a[Axis::Unknown.ord() as int] is Some {
        Err(MappingError::UnknownElement)
    } else {
        match slots_error(b, a, btns, axes, NUM_SLOTS as int) {
            Some(e) => Err(e),
            None => Ok(sdl_text(b, a, btns, axes, name, uuid)),
        }
    }
}

/// The first position of `c` in `list`.
fn position_of(list: &Vec<EvCode>, c: EvCode) -> (r: Option<usize>)
    ensures
        match r {
            Some(p) => first_pos(list@, c) == Some(p as int) && p < list@.len(),
            None => first_pos(list@, c) is None,
        },
{
    let mut i: usize = 0;
    while i < list.len()
        invariant
            i <= list@.len(),
            forall|m: int| 0 <= m < i ==> list@[m] != c,
        decreases list@.len() - i,
    {
        if list[i] == c {
            proof {
                assert forall|v: int|
                    0 <= v < list@.len() && list@[v] == c && (forall|m: int| 0 <= m < v ==> list@[m] != c) implies v
                    == i by {
                    if v < i {
                        assert(list@[v] != c);
                    } else if v > i {
                        assert(list@[i as int] != c);
                    }
                }
            }
            return Some(i);
        }
        i = i + 1;
    }
    None
}

/// The digit character of `d`.
fn digit_char_exec(d: usize) -> (r: char)
    requires
        d < 10,
    ensures
        r == digit_char(d as int),
{
    match d {
        0 => '0',
        1 => '1',
        2 => '2',
        3 => '3',
        4 => '4',
        5 => '5',
        6 => '6',
        7 => '7',
        8 => '8',
        _ => '9',
    }
}

/// Appends the decimal digits of `n`.
pub(crate) fn push_decimal(out: &mut Vec<char>, n: usize)
    ensures
        final(out)@ == old(out)@ + decimal(n as nat),
    decreases n,
{
    if n >= 10 {
        push_decimal(out, n / 10);
    }
    out.push(digit_char_exec(n % 10));
    proof {
        if n >= 10 {
            assert(final(out)@ =~= old(out)@ + decimal(n as nat));
        } else {
            assert(final(out)@ =~= old(out)@ + decimal(n as nat));
        }
    }
}

/// Appends all of `s`.
fn push_all(out: &mut Vec<char>, s: &Vec<char>)
    ensures
        final(out)@ == old(out)@ + s@,
{
    let mut i: usize = 0;
    while i < s.len()
        invariant
            i <= s@.len(),
            out@ == old(out)@ + s@.take(i as int),
        decreases s@.len() - i,
    {
        out.push(s[i]);
        proof {
            assert(out@ =~= old(out)@ + s@.take(i + 1));
        }
        i = i + 1;
    }
    proof {
        assert(s@.take(s@.len() as int) =~= s@);
    }
}

/// The token that writes code `c` for the device.
fn code_token_exec(c: EvCode, btns: &Vec<EvCode>, axes: &Vec<EvCode>) -> (r: Option<Vec<char>>)
    ensures
        match (r, code_token(c, btns@, axes@)) {
            (Some(v), Some(t)) => v@ == t,
            (None, None) => true,
            _ => false,
        },
{
    let (kind, p) = match position_of(btns, c) {
        Some(p) => ('b', p),
        None => match position_of(axes, c) {
            Some(p) => ('a', p),
            None => {
                return None;
            },
        },
    };
    let mut v: Vec<char> = Vec::new();
    v.push(kind);
    push_decimal(&mut v, p);
    proof {
        assert(v@ =~= seq![kind] + decimal(p as nat));
    }
    Some(v)
}

/// The code in slot `i` of the data.
fn data_slot(data: &MappingData, i: usize) -> (r: Option<EvCode>)
    requires
        data.wf(),
        i < NUM_SLOTS,
    ensures
        r == slot(data.btn_view(), data.axis_view(), i as int),
{
    if i < NUM_BUTTONS {
        data.btn_table()[i]
    } else {
        data.axis_table()[i - NUM_BUTTONS]
    }
}

/// Builds the mapping that `data` describes for a device with the given
/// native buttons and axes, and its mapping text.
pub fn from_data(
    data: &MappingData,
    buttons: &Vec<EvCode>,
    axes: &Vec<EvCode>,
    name: &str,
    uuid: u128,
) -> (r: Result<(Mapping, String), MappingError>)
    requires
        data.wf(),
    ensures
        match (r, spec_from_data(data.btn_view(), data.axis_view(), buttons@, axes@, name@, uuid)) {
            (Ok((m, s)), Ok(t)) => {
                &&& s@ == t
                &&& m.wf()
                &&& m.btn_view() == data.btn_view()
                &&& m.axis_view() == data.axis_view()
                &&& m.name_view() == name@
                &&& m.uuid_view() == uuid
                &&& !m.is_default_view()
            },
            (Err(e), Err(f)) => e == f,
            _ => false,
        },
{
    let ghost b = data.btn_view();
    let ghost a = data.axis_view();
    let name_chars = chars_of(name);
    let mut i: usize = 0;
    while i < name_chars.len()
        invariant
            i <= name_chars@.len(),
            name_chars@ == name@,
            forall|m: int| 0 <= m < i ==> name_chars@[m] != ',',
        decreases name_chars@.len() - i,
    {
        if name_chars[i] == ',' {
            return Err(MappingError::Parser);
        }
        i = i + 1;
    }
    if data.button(Button::Unknown).is_some() || data.axis(Axis::Unknown).is_some() {
        return Err(MappingError::UnknownElement);
    }
    let mut entries: Vec<char> = Vec::new();
    let mut i: usize = 0;
    while i < NUM_SLOTS
        invariant
            i <= NUM_SLOTS,
            data.wf(),
            b == data.btn_view(),
            a == data.axis_view(),
            no_comma(name@),
            b[Button::Unknown.ord() as int] is None,
            a[Axis::Unknown.ord() as int] is None,
            slots_error(b, a, buttons@, axes@, i as int) is None,
            entries@ == entries_text(b, a, buttons@, axes@, i as int),
            forall|x: int, y: int|
                0 <= x < i && 0 <= y < i && x != y && (#[trigger] slot(b, a, x)) is Some ==> slot(
                    b,
                    a,
                    x,
                ) != #[trigger] slot(b, a, y),
        decreases NUM_SLOTS - i,
    {
        match data_slot(data, i) {
            None => {
                proof {
                    assert(entries_text(b, a, buttons@, axes@, i + 1) =~= entries@);
                }
            },
            Some(c) => {
                let tok = match code_token_exec(c, buttons, axes) {
                    Some(t) => t,
                    None => {
                        proof {
                            lemma_slots_error_stays(b, a, buttons@, axes@, i + 1, NUM_SLOTS as int);
                        }
                        return Err(MappingError::UnknownElement);
                    },
                };
                let mut j: usize = 0;
                while j < i
                    invariant
                        j <= i < NUM_SLOTS,
                        data.wf(),
                        b == data.btn_view(),
                        a == data.axis_view(),
                        slot(b, a, i as int) == Some(c),
                        forall|m: int| 0 <= m < j ==> slot(b, a, m) != Some(c),
                        no_comma(name@),
                        b[Button::Unknown.ord() as int] is None,
                        a[Axis::Unknown.ord() as int] is None,
                        slots_error(b, a, buttons@, axes@, i as int) is None,
                        code_token(c, buttons@, axes@) is Some,
                    decreases i - j,
                {
                    if data_slot(data, j) == Some(c) {
                        proof {
                            assert(slot(b, a, j as int) == Some(c));
                            lemma_slots_error_stays(b, a, buttons@, axes@, i + 1, NUM_SLOTS as int);
                        }
                        return Err(MappingError::DuplicateAxis);
                    }
                    j = j + 1;
                }
                let key = slot_key_chars(i);
                push_all(&mut entries, &key);
                entries.push(':');
                push_all(&mut entries, &tok);
                entries.push(',');
                proof {
                    assert(entries_text(b, a, buttons@, axes@, i + 1) =~= entries@);
                }
            },
        }
        i = i + 1;
    }
    let mut text = chars_of(uuid_simple_string(uuid).as_str());
    text.push(',');
    push_all(&mut text, &name_chars);
    text.push(',');
    push_all(&mut text, &entries);
    proof {
        assert(text@ =~= sdl_text(b, a, buttons@, axes@, name@, uuid));
    }
    let m = Mapping::from_parts(
        data.btn_table().clone(),
        data.axis_table().clone(),
        String::from_str(name),
        uuid,
    );
    Ok((m, string_from_chars(&text)))
}

/// An error among the first slots stays the first error.
proof fn lemma_slots_error_stays(
    b: Seq<Option<EvCode>>,
    a: Seq<Option<EvCode>>,
    btns: Seq<EvCode>,
    axes: Seq<EvCode>,
    k: int,
    n: int,
)
    requires
        k <= n,
        slots_error(b, a, btns, axes, k) is Some,
    ensures
        slots_error(b, a, btns, axes, n) == slots_error(b, a, btns, axes, k),
    decreases n - k,
{
    if k < n {
        lemma_slots_error_stays(b, a, btns, axes, k, n - 1);
    }
}

/// Characters of `t` from `start` on, for `k` characters, without the
/// separator: the open piece grows by them.
proof fn lemma_split_run(t: Seq<char>, sep: char, start: int, k: int)
    requires
        0 <= start,
        0 <= k,
        start + k <= t.len(),
        split_step(t, sep, start).1 == Seq::<char>::empty(),
        forall|i: int| start <= i < start + k ==> t[i] != sep,
    ensures
        split_step(t, sep, start + k) == (split_step(t, sep, start).0, t.subrange(start, start + k)),
    decreases k,
{
    if k > 0 {
        lemma_split_run(t, sep, start, k - 1);
        assert(t.subrange(start, start + k - 1).push(t[start + k - 1]) =~= t.subrange(start, start + k));
    } else {
        assert(t.subrange(start, start) =~= Seq::<char>::empty());
    }
}

/// A piece without separators, then a separator: the piece is closed.
proof fn lemma_split_piece(t: Seq<char>, sep: char, start: int, p: Seq<char>)
    requires
        0 <= start,
        start + p.len() + 1 <= t.len(),
        split_step(t, sep, start).1 == Seq::<char>::empty(),
        t.subrange(start, start + p.len()) == p,
        forall|i: int| 0 <= i < p.len() ==> p[i] != sep,
        t[start + p.len()] == sep,
    ensures
        split_step(t, sep, start + p.len() + 1) == (
            split_step(t, sep, start).0.push(p),
            Seq::<char>::empty(),
        ),
{
    assert forall|i: int| start <= i < start + p.len() implies t[i] != sep by {
        assert(t[i] == t.subrange(start, start + p.len())[i - start]);
    }
    lemma_split_run(t, sep, start, p.len() as int);
}

pub open spec fn pow16(n: nat) -> nat
    decreases n,
{
    if n == 0 {
        1
    } else {
        16 * pow16((n - 1) as nat)
    }
}

proof fn lemma_hex_digits(u: nat, n: nat)
    ensures
        hex_digits(u, n).len() == n,
        all_hex(hex_digits(u, n)),
        u < pow16(n) ==> hex_value(hex_digits(u, n)) == u,
    decreases n,
{
    if n > 0 {
        lemma_hex_digits(u / 16, (n - 1) as nat);
        let s = hex_digits(u / 16, (n - 1) as nat);
        let d = u % 16;
        assert(hex_digits(u, n) == s.push(hex_char(d as int)));
        assert(hex_digits(u, n).drop_last() =~= s);
        assert(hex_digit_value(hex_char(d as int)) == d);
        assert forall|i: int| 0 <= i < hex_digits(u, n).len() implies is_hex(
            #[trigger] hex_digits(u, n)[i],
        ) by {
            if i < s.len() {
                assert(hex_digits(u, n)[i] == s[i]);
            }
        }
        if u < pow16(n) {
            assert(u / 16 < pow16((n - 1) as nat));
            assert(u == (u / 16) * 16 + d);
        }
    }
}

proof fn lemma_u128_bound(u: u128)
    ensures
        (u as nat) < pow16(32),
{
    reveal_with_fuel(pow16, 33);
    assert(pow16(32) == 0x1_0000_0000_0000_0000_0000_0000_0000_0000);
}

proof fn lemma_decimal(p: nat)
    ensures
        decimal(p).len() >= 1,
        all_digits(decimal(p)),
        decimal_value(decimal(p)) == p,
    decreases p,
{
    if p >= 10 {
        lemma_decimal(p / 10);
        let s = decimal(p / 10);
        assert(decimal(p).drop_last() =~= s);
        assert forall|i: int| 0 <= i < decimal(p).len() implies is_digit(#[trigger] decimal(p)[i]) by {
            if i < s.len() {
                assert(decimal(p)[i] == s[i]);
            }
        }
        assert(p == (p / 10) * 10 + p % 10);
        let d = (p % 10) as int;
        assert(digit_value(digit_char(d)) == d);
        assert(decimal(p).last() == digit_char(d));
        assert(decimal_value(decimal(p)) == decimal_value(decimal(p).drop_last()) * 10 + digit_value(
            decimal(p).last(),
        ));
        assert(decimal_value(decimal(p)) == (p / 10) * 10 + d);
    } else {
        assert(decimal(p).drop_last() =~= Seq::<char>::empty());
        assert(digit_value(digit_char(p as int)) == p);
        assert(decimal(p).last() == digit_char(p as int));
        assert(decimal_value(decimal(p)) == decimal_value(decimal(p).drop_last()) * 10 + digit_value(
            decimal(p).last(),
        ));
    }
}

proof fn lemma_key_chars(i: int)
    requires
        0 <= i < NUM_SLOTS,
    ensures
        forall|j: int| 0 <= j < slot_key(i).len() ==> slot_key(i)[j] != ',' && slot_key(i)[j] != ':',
        !is_unknown_slot(i) ==> slot_key(i).len() >= 1,
{
}

proof fn lemma_keys_distinct(i: int, j: int)
    requires
        0 <= i < NUM_SLOTS,
        0 <= j < NUM_SLOTS,
        i != j,
        !is_unknown_slot(i),
        !is_unknown_slot(j),
    ensures
        slot_key(i) != slot_key(j),
{
    if slot_key(i) == slot_key(j) {
        assert(slot_key(i).len() == slot_key(j).len());
        assert(slot_key(i)[0] == slot_key(j)[0]);
        assert(slot_key(i)[slot_key(i).len() - 1] == slot_key(j)[slot_key(j).len() - 1]);
    }
}

proof fn lemma_control_of_key(i: int, j: int)
    requires
        0 <= j <= i < NUM_SLOTS,
        !is_unknown_slot(i),
    ensures
        control_of_key_from(slot_key(i), j) == Some(slot_control(i)),
    decreases i - j,
{
    if j < i {
        if !is_unknown_slot(j) {
            lemma_keys_distinct(i, j);
        }
        lemma_control_of_key(i, j + 1);
    }
}

proof fn lemma_first_pos(s: Seq<EvCode>, x: EvCode)
    ensures
        first_pos(s, x) matches Some(p) ==> 0 <= p < s.len() && s[p] == x,
{
}

/// A token that this library writes reads back as its code.
proof fn lemma_token(c: EvCode, btns: Seq<EvCode>, axes: Seq<EvCode>)
    requires
        code_token(c, btns, axes) is Some,
    ensures
        parse_token(code_token(c, btns, axes)->Some_0, btns, axes) == Ok::<
            Option<EvCode>,
            MappingError,
        >(Some(c)),
        forall|i: int|
            0 <= i < code_token(c, btns, axes)->Some_0.len() ==> code_token(c, btns, axes)->Some_0[i]
                != ',' && code_token(c, btns, axes)->Some_0[i] != ':',
{
    let tok = code_token(c, btns, axes)->Some_0;
    lemma_first_pos(btns, c);
    lemma_first_pos(axes, c);
    let p = match first_pos(btns, c) {
        Some(p) => p,
        None => first_pos(axes, c)->Some_0,
    };
    lemma_decimal(p as nat);
    let d = decimal(p as nat);
    assert(tok == seq![tok[0]] + d);
    assert(tok.last() == d.last());
    assert(is_digit(d[d.len() - 1]));
    assert(token_core(tok) == tok);
    assert(tok.skip(1) =~= d);
    assert forall|i: int| 0 <= i < tok.len() implies tok[i] != ',' && tok[i] != ':' by {
        if i > 0 {
            assert(tok[i] == d[i - 1]);
            assert(is_digit(d[i - 1]));
        }
    }
}

/// The `key:token` text of slot `i`.
pub open spec fn entry_text(i: int, tok: Seq<char>) -> Seq<char> {
    slot_key(i) + seq![':'] + tok
}

/// An entry that this library writes reads back as its control and code.
proof fn lemma_entry(i: int, c: EvCode, btns: Seq<EvCode>, axes: Seq<EvCode>)
    requires
        0 <= i < NUM_SLOTS,
        !is_unknown_slot(i),
        code_token(c, btns, axes) is Some,
    ensures
        parse_entry(entry_text(i, code_token(c, btns, axes)->Some_0), btns, axes) == Ok::<
            Option<(AxisOrBtn, EvCode)>,
            MappingError,
        >(Some((slot_control(i), c))),
        forall|j: int|
            0 <= j < entry_text(i, code_token(c, btns, axes)->Some_0).len() ==> entry_text(
                i,
                code_token(c, btns, axes)->Some_0,
            )[j] != ',',
{
    let tok = code_token(c, btns, axes)->Some_0;
    let key = slot_key(i);
    let f = entry_text(i, tok);
    lemma_key_chars(i);
    lemma_token(c, btns, axes);
    let w = key.len() as int;
    assert(f[w] == ':');
    assert forall|m: int| 0 <= m < w implies f[m] != ':' by {
        assert(f[m] == key[m]);
    }
    assert forall|v: int|
        0 <= v < f.len() && f[v] == ':' && (forall|m: int| 0 <= m < v ==> f[m] != ':') implies v
        == w by {
        if v < w {
            assert(f[v] == key[v]);
        } else if v > w {
            assert(f[w] != ':');
        }
    }
    assert(first_index(f, ':') == Some(w));
    assert(f.take(w) =~= key);
    assert(f.skip(w + 1) =~= tok);
    lemma_control_of_key(i, 0);
    assert forall|j: int| 0 <= j < f.len() implies f[j] != ',' by {
        if j < w {
            assert(f[j] == key[j]);
        } else if j > w {
            assert(f[j] == tok[j - w - 1]);
        }
    }
}

/// The fields that the entries of the slots below `n` are written as.
pub open spec fn entry_fields(
    b: Seq<Option<EvCode>>,
    a: Seq<Option<EvCode>>,
    btns: Seq<EvCode>,
    axes: Seq<EvCode>,
    n: int,
) -> Seq<Seq<char>>
    decreases n,
{
    if n <= 0 {
        seq![]
    } else {
        entry_fields(b, a, btns, axes, n - 1) + match slot(b, a, n - 1) {
            Some(c) => match code_token(c, btns, axes) {
                Some(tok) => seq![entry_text(n - 1, tok)],
                None => seq![],
            },
            None => seq![],
        }
    }
}

proof fn lemma_entries_prefix(
    b: Seq<Option<EvCode>>,
    a: Seq<Option<EvCode>>,
    btns: Seq<EvCode>,
    axes: Seq<EvCode>,
    n: int,
    m: int,
)
    requires
        0 <= n <= m,
    ensures
        entries_text(b, a, btns, axes, n).len() <= entries_text(b, a, btns, axes, m).len(),
        entries_text(b, a, btns, axes, m).subrange(0, entries_text(b, a, btns, axes, n).len() as int)
            == entries_text(b, a, btns, axes, n),
        entry_fields(b, a, btns, axes, n).len() <= entry_fields(b, a, btns, axes, m).len(),
        entry_fields(b, a, btns, axes, m).subrange(0, entry_fields(b, a, btns, axes, n).len() as int)
            == entry_fields(b, a, btns, axes, n),
    decreases m - n,
{
    if n < m {
        lemma_entries_prefix(b, a, btns, axes, n, m - 1);
        let tn = entries_text(b, a, btns, axes, n);
        let t1 = entries_text(b, a, btns, axes, m - 1);
        let t2 = entries_text(b, a, btns, axes, m);
        assert(t2.subrange(0, t1.len() as int) =~= t1);
        assert(t2.subrange(0, tn.len() as int) =~= t1.subrange(0, tn.len() as int));
        let fn_ = entry_fields(b, a, btns, axes, n);
        let f1 = entry_fields(b, a, btns, axes, m - 1);
        let f2 = entry_fields(b, a, btns, axes, m);
        assert(f2.subrange(0, f1.len() as int) =~= f1);
        assert(f2.subrange(0, fn_.len() as int) =~= f1.subrange(0, fn_.len() as int));
    } else {
        assert(entries_text(b, a, btns, axes, n).subrange(
            0,
            entries_text(b, a, btns, axes, n).len() as int,
        ) =~= entries_text(b, a, btns, axes, n));
        assert(entry_fields(b, a, btns, axes, n).subrange(
            0,
            entry_fields(b, a, btns, axes, n).len() as int,
        ) =~= entry_fields(b, a, btns, axes, n));
    }
}

/// Splitting the text at its entries closes one field per written entry.
#[verifier::rlimit(50)]
proof fn lemma_split_entries(
    t: Seq<char>,
    base: int,
    b: Seq<Option<EvCode>>,
    a: Seq<Option<EvCode>>,
    btns: Seq<EvCode>,
    axes: Seq<EvCode>,
    n: int,
)
    requires
        0 <= base,
        0 <= n <= NUM_SLOTS,
        tables_sized(b, a),
        b[Button::Unknown.ord() as int] is None,
        a[Axis::Unknown.ord() as int] is None,
        base + entries_text(b, a, btns, axes, NUM_SLOTS as int).len() <= t.len(),
        t.subrange(base, base + entries_text(b, a, btns, axes, NUM_SLOTS as int).len()) == entries_text(
            b,
            a,
            btns,
            axes,
            NUM_SLOTS as int,
        ),
        split_step(t, ',', base).1 == Seq::<char>::empty(),
    ensures
        split_step(t, ',', base + entries_text(b, a, btns, axes, n).len()) == (
            split_step(t, ',', base).0 + entry_fields(b, a, btns, axes, n),
            Seq::<char>::empty(),
        ),
    decreases n,
{
    let d = split_step(t, ',', base).0;
    if n == 0 {
        assert(d + entry_fields(b, a, btns, axes, 0) =~= d);
    } else {
        lemma_split_entries(t, base, b, a, btns, axes, n - 1);
        let prev = entries_text(b, a, btns, axes, n - 1);
        let cur = entries_text(b, a, btns, axes, n);
        let all = entries_text(b, a, btns, axes, NUM_SLOTS as int);
        match slot(b, a, n - 1) {
            Some(c) => match code_token(c, btns, axes) {
                Some(tok) => {
                    let e = entry_text(n - 1, tok);
                    assert(!is_unknown_slot(n - 1));
                    lemma_entry(n - 1, c, btns, axes);
                    lemma_entries_prefix(b, a, btns, axes, n, NUM_SLOTS as int);
                    let s = base + prev.len();
                    assert(cur == prev + e + seq![',']);
                    assert forall|k: int| 0 <= k < e.len() + 1 implies t[s + k] == (e + seq![','])[k] by {
                        assert(t[s + k] == t.subrange(base, base + all.len())[prev.len() + k]);
                        assert(all[prev.len() + k] == all.subrange(0, cur.len() as int)[prev.len() + k]);
                        assert(cur[prev.len() + k] == (e + seq![','])[k]);
                    }
                    assert forall|k: int| 0 <= k < e.len() implies t.subrange(s, s + e.len())[k]
                        == e[k] by {
                        assert(t[s + k] == (e + seq![','])[k]);
                        assert((e + seq![','])[k] == e[k]);
                    }
                    assert(t.subrange(s, s + e.len()) =~= e);
                    assert(t[s + e.len()] == (e + seq![','])[e.len() as int]);
                    lemma_split_piece(t, ',', s, e);
                    assert(d + entry_fields(b, a, btns, axes, n) =~= (d + entry_fields(
                        b,
                        a,
                        btns,
                        axes,
                        n - 1,
                    )).push(e));
                },
                None => {
                    assert(cur =~= prev);
                    assert(entry_fields(b, a, btns, axes, n) =~= entry_fields(b, a, btns, axes, n - 1));
                },
            },
            None => {
                assert(cur =~= prev);
                assert(entry_fields(b, a, btns, axes, n) =~= entry_fields(b, a, btns, axes, n - 1));
            },
        }
    }
}

/// The tables with only the slots below `n` filled.
pub open spec fn partial_tables(b: Seq<Option<EvCode>>, a: Seq<Option<EvCode>>, n: int) -> (
    Seq<Option<EvCode>>,
    Seq<Option<EvCode>>,
) {
    (
        Seq::new(NUM_BUTTONS as nat, |i: int| if i < n { b[i] } else { None }),
        Seq::new(NUM_AXES as nat, |i: int| if NUM_BUTTONS + i < n { a[i] } else { None }),
    )
}

proof fn lemma_no_error_below(
    b: Seq<Option<EvCode>>,
    a: Seq<Option<EvCode>>,
    btns: Seq<EvCode>,
    axes: Seq<EvCode>,
    n: int,
)
    requires
        0 <= n <= NUM_SLOTS,
        slots_error(b, a, btns, axes, NUM_SLOTS as int) is None,
    ensures
        slots_error(b, a, btns, axes, n) is None,
{
    if slots_error(b, a, btns, axes, n) is Some {
        lemma_slots_error_stays(b, a, btns, axes, n, NUM_SLOTS as int);
    }
}

/// Parsing the written entries fills the slots in order.
#[verifier::rlimit(50)]
proof fn lemma_parse_written_entries(
    fs: Seq<Seq<char>>,
    b: Seq<Option<EvCode>>,
    a: Seq<Option<EvCode>>,
    btns: Seq<EvCode>,
    axes: Seq<EvCode>,
    n: int,
)
    requires
        0 <= n <= NUM_SLOTS,
        tables_sized(b, a),
        b[Button::Unknown.ord() as int] is None,
        a[Axis::Unknown.ord() as int] is None,
        slots_error(b, a, btns, axes, NUM_SLOTS as int) is None,
        fs.len() >= 2 + entry_fields(b, a, btns, axes, NUM_SLOTS as int).len(),
        forall|k: int|
            0 <= k < entry_fields(b, a, btns, axes, NUM_SLOTS as int).len() ==> fs[2 + k]
                == entry_fields(b, a, btns, axes, NUM_SLOTS as int)[k],
    ensures
        parse_entries(fs, 2 + entry_fields(b, a, btns, axes, n).len() as int, btns, axes) == Ok::<
            (Seq<Option<EvCode>>, Seq<Option<EvCode>>),
            MappingError,
        >(partial_tables(b, a, n)),
    decreases n,
{
    if n == 0 {
        assert(partial_tables(b, a, 0).0 =~= empty_tables().0);
        assert(partial_tables(b, a, 0).1 =~= empty_tables().1);
    } else {
        lemma_parse_written_entries(fs, b, a, btns, axes, n - 1);
        let filled = partial_tables(b, a, n - 1);
        let next = partial_tables(b, a, n);
        let ef0 = entry_fields(b, a, btns, axes, n - 1);
        match slot(b, a, n - 1) {
            None => {
                assert(next.0 =~= filled.0);
                assert(next.1 =~= filled.1);
            },
            Some(c) => {
                lemma_no_error_below(b, a, btns, axes, n);
                let tok = code_token(c, btns, axes)->Some_0;
                let e = entry_text(n - 1, tok);
                assert(!is_unknown_slot(n - 1));
                lemma_entry(n - 1, c, btns, axes);
                lemma_entries_prefix(b, a, btns, axes, n, NUM_SLOTS as int);
                let all = entry_fields(b, a, btns, axes, NUM_SLOTS as int);
                assert(entry_fields(b, a, btns, axes, n) == ef0.push(e));
                assert(all[ef0.len() as int] == all.subrange(0, ef0.len() + 1 as int)[ef0.len() as int]);
                assert(fs[2 + ef0.len() as int] == e);
                let x = slot_control(n - 1);
                assert(code_of(filled.0, filled.1, x) is None);
                assert forall|i: int| 0 <= i < NUM_SLOTS implies slot(filled.0, filled.1, i) != Some(c) by {
                    if i < n - 1 {
                        assert(slot(filled.0, filled.1, i) == slot(b, a, i));
                    }
                }
                assert(!holds_code(filled.0, filled.1, c));
                let r = add_entry(filled.0, filled.1, x, c)->Ok_0;
                assert(r.0 =~= next.0);
                assert(r.1 =~= next.1);
            },
        }
    }
}

/// Mapping text round trip: parsing the text that `from_data` writes for
/// some tables, a name and a UUID gives back exactly those tables, that
/// name and that UUID.
#[verifier::rlimit(50)]
pub proof fn lemma_mapping_round_trip(
    b: Seq<Option<EvCode>>,
    a: Seq<Option<EvCode>>,
    btns: Seq<EvCode>,
    axes: Seq<EvCode>,
    name: Seq<char>,
    uuid: u128,
)
    requires
        tables_sized(b, a),
        spec_from_data(b, a, btns, axes, name, uuid) is Ok,
    ensures
        spec_parse(spec_from_data(b, a, btns, axes, name, uuid)->Ok_0, btns, axes) == Ok::<
            (Seq<Option<EvCode>>, Seq<Option<EvCode>>, Seq<char>, u128),
            MappingError,
        >((b, a, name, uuid)),
{
    let h = hex_digits(uuid as nat, 32);
    let e = entries_text(b, a, btns, axes, NUM_SLOTS as int);
    let t = sdl_text(b, a, btns, axes, name, uuid);
    lemma_hex_digits(uuid as nat, 32);
    lemma_u128_bound(uuid);
    assert(t == h + seq![','] + name + seq![','] + e);
    assert(split_step(t, ',', 0) == (Seq::<Seq<char>>::empty(), Seq::<char>::empty()));
    assert forall|i: int| 0 <= i < h.len() implies h[i] != ',' by {
        assert(is_hex(h[i]));
    }
    assert(t.subrange(0, 32) =~= h);
    assert(t[32] == ',');
    lemma_split_piece(t, ',', 0, h);
    assert(t.subrange(33, 33 + name.len() as int) =~= name);
    assert(t[33 + name.len() as int] == ',');
    lemma_split_piece(t, ',', 33, name);
    let base: int = 34 + name.len() as int;
    assert(seq![h].push(name) =~= seq![h, name]);
    assert(t.subrange(base, base + e.len()) =~= e);
    lemma_split_entries(t, base, b, a, btns, axes, NUM_SLOTS as int);
    let ef = entry_fields(b, a, btns, axes, NUM_SLOTS as int);
    assert(base + e.len() == t.len());
    let fs = fields(t);
    assert(fs == (seq![h, name] + ef).push(Seq::<char>::empty()));
    assert(fs[0] == h);
    assert(fs[1] == name);
    assert forall|k: int| 0 <= k < ef.len() implies fs[2 + k] == ef[k] by {
        assert(fs[2 + k] == (seq![h, name] + ef)[2 + k]);
    }
    lemma_parse_written_entries(fs, b, a, btns, axes, NUM_SLOTS as int);
    assert(fs[2 + ef.len() as int] == Seq::<char>::empty());
    assert(partial_tables(b, a, NUM_SLOTS as int).0 =~= b);
    assert(partial_tables(b, a, NUM_SLOTS as int).1 =~= a);
    assert(parse_entries(fs, fs.len() as int, btns, axes) == Ok::<
        (Seq<Option<EvCode>>, Seq<Option<EvCode>>),
        MappingError,
    >((b, a)));
}

/// The text of a line before its first comma.
pub open spec fn first_field(line: Seq<char>) -> Seq<char> {
    match first_index(line, ',') {
        Some(j) => line.take(j),
        None => line,
    }
}

/// The UUID that a mapping line starts with, if it starts with 32 hex digits
/// and a comma or the end.
pub open spec fn line_uuid(line: Seq<char>) -> Option<u128> {
    let f = first_field(line);
    if f.len() == 32 && all_hex(f) {
        Some(hex_value(f) as u128)
    } else {
        None
    }
}

/// A line without its trailing carriage return.
pub open spec fn trim_cr(line: Seq<char>) -> Seq<char> {
    if line.len() > 0 && line.last() == '\r' {
        line.drop_last()
    } else {
        line
    }
}

/// The entries with `line` stored under `u`, in place of the one that had
/// that UUID.
pub open spec fn db_put(db: Seq<(u128, Seq<char>)>, u: u128, line: Seq<char>) -> Seq<(u128, Seq<char>)> {
    if exists|i: int| 0 <= i < db.len() && db[i].0 == u {
        db.update(choose|i: int| 0 <= i < db.len() && db[i].0 == u, (u, line))
    } else {
        db.push((u, line))
    }
}

/// The entries after the first `n` lines of a text were added.
pub open spec fn db_add_lines(db: Seq<(u128, Seq<char>)>, lines: Seq<Seq<char>>, n: int) -> Seq<
    (u128, Seq<char>),
>
    decreases n,
{
    if n <= 0 {
        db
    } else {
        let prev = db_add_lines(db, lines, n - 1);
        let line = trim_cr(lines[n - 1]);
        match line_uuid(line) {
            Some(u) => db_put(prev, u, line),
            None => prev,
        }
    }
}

pub open spec fn db_keys_unique(db: Seq<(u128, Seq<char>)>) -> bool {
    forall|i: int, j: int| 0 <= i < db.len() && 0 <= j < db.len() && i != j ==> db[i].0 != db[j].0
}

/// The text stored under `u`.
pub open spec fn db_get(db: Seq<(u128, Seq<char>)>, u: u128) -> Option<Seq<char>> {
    if exists|i: int| 0 <= i < db.len() && db[i].0 == u {
        Some(db[choose|i: int| 0 <= i < db.len() && db[i].0 == u].1)
    } else {
        None
    }
}

/// Mapping texts keyed by the UUID of the device that they are for.
#[derive(Clone, Debug)]
pub struct MappingDb {
    entries: Vec<(u128, String)>,
}

impl MappingDb {
    pub closed spec fn view(&self) -> Seq<(u128, Seq<char>)> {
        Seq::new(self.entries@.len(), |i: int| (self.entries@[i].0, self.entries@[i].1@))
    }

    pub open spec fn wf(&self) -> bool {
        db_keys_unique(self.view())
    }

    pub fn new() -> (r: MappingDb)
        ensures
            r.wf(),
            r.view().len() == 0,
    {
        let r = MappingDb { entries: Vec::new() };
        proof {
            assert(r.view() =~= Seq::<(u128, Seq<char>)>::empty());
        }
        r
    }

    /// The mapping text for the device with UUID `u`.
    pub fn get(&self, u: u128) -> (r: Option<&String>)
        requires
            self.wf(),
        ensures
            match (r, db_get(self.view(), u)) {
                (Some(s), Some(t)) => s@ == t,
                (None, None) => true,
                _ => false,
            },
    {
        let mut i: usize = 0;
        while i < self.entries.len()
            invariant
                i <= self.entries@.len(),
                self.wf(),
                forall|j: int| 0 <= j < i ==> self.view()[j].0 != u,
            decreases self.entries@.len() - i,
        {
            if self.entries[i].0 == u {
                proof {
                    assert(self.view()[i as int].0 == u);
                    let k = choose|k: int| 0 <= k < self.view().len() && self.view()[k].0 == u;
                    assert(k == i);
                }
                return Some(&self.entries[i].1);
            }
            i = i + 1;
        }
        None
    }

    /// Stores `line` under `u`, replacing what was there.
    fn put(&mut self, u: u128, line: String)
        requires
            old(self).wf(),
        ensures
            final(self).wf(),
            final(self).view() == db_put(old(self).view(), u, line@),
    {
        let ghost v = self.view();
        let mut i: usize = 0;
        while i < self.entries.len()
            invariant
                i <= self.entries@.len(),
                self.view() == v,
                v == old(self).view(),
                self.wf(),
                forall|j: int| 0 <= j < i ==> v[j].0 != u,
            decreases self.entries@.len() - i,
        {
            if self.entries[i].0 == u {
                proof {
                    assert(self.entries@[i as int].0 == u);
                    assert(v[i as int].0 == u);
                    let k = choose|k: int| 0 <= k < v.len() && v[k].0 == u;
                    assert(k == i);
                }
                self.entries.set(i, (u, line));
                proof {
                    assert(self.view() =~= v.update(i as int, (u, line@)));
                    assert(exists|j: int| 0 <= j < v.len() && v[j].0 == u);
                    assert(db_put(v, u, line@) == v.update(i as int, (u, line@)));
                }
                return;
            }
            i = i + 1;
        }
        self.entries.push((u, line));
        proof {
            assert(self.view() =~= v.push((u, line@)));
        }
    }

    /// Adds each line of `text` that starts with a UUID; a later line for a
    /// UUID replaces an earlier one.
    pub fn insert(&mut self, text: &str)
        requires
            old(self).wf(),
        ensures
            final(self).wf(),
            final(self).view() == db_add_lines(
                old(self).view(),
                split(text@, '\n'),
                split(text@, '\n').len() as int,
            ),
    {
        let t = chars_of(text);
        let ranges = piece_ranges(&t, '\n');
        let ghost lines = split(t@, '\n');
        let ghost v0 = self.view();
        let mut k: usize = 0;
        while k < ranges.len()
            invariant
                k <= ranges@.len() == lines.len(),
                t@ == text@,
                lines == split(t@, '\n'),
                self.wf(),
                forall|q: int| 0 <= q < ranges@.len() ==> (#[trigger] ranges@[q]).0 <= ranges@[q].1 <= t@.len(),
                forall|q: int|
                    0 <= q < ranges@.len() ==> t@.subrange(ranges@[q].0 as int, ranges@[q].1 as int)
                        == #[trigger] lines[q],
                self.view() == db_add_lines(v0, lines, k as int),
            decreases ranges@.len() - k,
        {
            let (s, e0) = ranges[k];
            proof {
                assert(t@.subrange(s as int, e0 as int) == lines[k as int]);
            }
            let e = if s < e0 && t[e0 - 1] == '\r' {
                e0 - 1
            } else {
                e0
            };
            proof {
                assert(trim_cr(lines[k as int]) =~= t@.subrange(s as int, e as int));
            }
            let end = match find_char(&t, s, e, ',') {
                Some(j) => j,
                None => e,
            };
            proof {
                assert(first_field(t@.subrange(s as int, e as int)) =~= t@.subrange(
                    s as int,
                    end as int,
                ));
            }
            if end - s == 32 {
                let key_text = string_from_chars(&sub_chars(&t, s, end));
                match parse_uuid(key_text.as_str()) {
                    Ok(u) => {
                        let line = string_from_chars(&sub_chars(&t, s, e));
                        self.put(u, line);
                    },
                    Err(_) => {},
                }
            }
            k = k + 1;
        }
    }
}

} // verus!
