use vstd::prelude::*;

use crate::endian::{load_u16, load_u32, load_u64, spec_u16, spec_u32, spec_u64};

verus! {

/// An unsigned rational number: a pair of 32-bit integers.
#[derive(Debug, Clone, Copy, PartialEq, Eq, Structural)]
pub struct Rational {
    pub num: u32,
    pub denom: u32,
}

/// A signed rational number: a pair of 32-bit integers.
#[derive(Debug, Clone, Copy, PartialEq, Eq, Structural)]
pub struct SRational {
    pub num: i32,
    pub denom: i32,
}

impl From<(u32, u32)> for Rational {
    fn from(t: (u32, u32)) -> (r: Rational)
        ensures
            r == (Rational { num: t.0, denom: t.1 }),
    {
        Rational { num: t.0, denom: t.1 }
    }
}

impl vstd::std_specs::convert::FromSpecImpl<(u32, u32)> for Rational {
    open spec fn obeys_from_spec() -> bool {
        true
    }

    open spec fn from_spec(t: (u32, u32)) -> Rational {
        Rational { num: t.0, denom: t.1 }
    }
}

impl From<(i32, i32)> for SRational {
    fn from(t: (i32, i32)) -> (r: SRational)
        ensures
            r == (SRational { num: t.0, denom: t.1 }),
    {
        SRational { num: t.0, denom: t.1 }
    }
}

impl vstd::std_specs::convert::FromSpecImpl<(i32, i32)> for SRational {
    open spec fn obeys_from_spec() -> bool {
        true
    }

    open spec fn from_spec(t: (i32, i32)) -> SRational {
        SRational { num: t.0, denom: t.1 }
    }
}

/// The value of a field.
///
/// `Float` and `Double` hold the IEEE 754 bit patterns of the numbers.
/// `Unknown` holds the type, the count and the offset of a value whose
/// type this library cannot decode.
#[derive(Debug, Clone, PartialEq)]
pub enum Value {
    Byte(Vec<u8>),
    Ascii(Vec<Vec<u8>>),
    Short(Vec<u16>),
    Long(Vec<u32>),
    Rational(Vec<Rational>),
    SByte(Vec<i8>),
    Undefined(Vec<u8>, u32),
    SShort(Vec<i16>),
    SLong(Vec<i32>),
    SRational(Vec<SRational>),
    Float(Vec<u32>),
    Double(Vec<u64>),
    Unknown(u16, u32, u32),
}

/// The mathematical content of a `Value`.
pub enum ValueView {
    Byte(Seq<u8>),
    Ascii(Seq<Seq<u8>>),
    Short(Seq<u16>),
    Long(Seq<u32>),
    Rational(Seq<Rational>),
    SByte(Seq<i8>),
    Undefined(Seq<u8>, u32),
    SShort(Seq<i16>),
    SLong(Seq<i32>),
    SRational(Seq<SRational>),
    Float(Seq<u32>),
    Double(Seq<u64>),
    Unknown(u16, u32, u32),
}

impl View for Value {
    type V = ValueView;

    open spec fn view(&self) -> ValueView {
        match self {
            Value::Byte(v) => ValueView::Byte(v@),
            Value::Ascii(v) => ValueView::Ascii(strings_view(v@)),
            Value::Short(v) => ValueView::Short(v@),
            Value::Long(v) => ValueView::Long(v@),
            Value::Rational(v) => ValueView::Rational(v@),
            Value::SByte(v) => ValueView::SByte(v@),
            Value::Undefined(v, o) => ValueView::Undefined(v@, *o),
            Value::SShort(v) => ValueView::SShort(v@),
            Value::SLong(v) => ValueView::SLong(v@),
            Value::SRational(v) => ValueView::SRational(v@),
            Value::Float(v) => ValueView::Float(v@),
            Value::Double(v) => ValueView::Double(v@),
            Value::Unknown(t, c, o) => ValueView::Unknown(*t, *c, *o),
        }
    }
}

/// The contents of a sequence of byte strings.
pub open spec fn strings_view(v: Seq<Vec<u8>>) -> Seq<Seq<u8>> {
    v.map_values(|s: Vec<u8>| s@)
}

/// The size in bytes of one unit of a TIFF type; 0 for a type that
/// cannot be decoded.
pub open spec fn unit_size(typ: u16) -> nat {
    if typ == 1 || typ == 2 || typ == 6 || typ == 7 {
        1
    } else if typ == 3 || typ == 8 {
        2
    } else if typ == 4 || typ == 9 || typ == 11 {
        4
    } else if typ == 5 || typ == 10 || typ == 12 {
        8
    } else {
        0
    }
}

/// Returns the unit size of a TIFF type (0 if the type is not supported).
pub fn get_type_info(typ: u16) -> (r: usize)
    ensures
        r == unit_size(typ),
{
    match typ {
        1 | 2 | 6 | 7 => 1,
        3 | 8 => 2,
        4 | 9 | 11 => 4,
        5 | 10 | 12 => 8,
        _ => 0,
    }
}

/// ASCII pieces of `s`, split at each NUL byte, the last piece still open.
pub open spec fn nul_pieces(s: Seq<u8>) -> Seq<Seq<u8>>
    decreases s.len(),
{
    if s.len() == 0 {
        seq![Seq::<u8>::empty()]
    } else {
        let p = nul_pieces(s.drop_last());
        if s.last() == 0 {
            p.push(Seq::<u8>::empty())
        } else {
            p.update(p.len() - 1, p.last().push(s.last()))
        }
    }
}

/// The strings of an ASCII value: the NUL-separated pieces, without an
/// empty piece after the last terminator.
pub open spec fn ascii_strings(s: Seq<u8>) -> Seq<Seq<u8>> {
    let p = nul_pieces(s);
    if p.last().len() == 0 {
        p.drop_last()
    } else {
        p
    }
}

/// The value of `cnt` units of type `typ` stored at `ofs`.
pub open spec fn decode_spec(le: bool, typ: u16, d: Seq<u8>, ofs: int, cnt: int) -> ValueView {
    if typ == 1 {
        ValueView::Byte(d.subrange(ofs, ofs + cnt))
    } else if typ == 2 {
        ValueView::Ascii(ascii_strings(d.subrange(ofs, ofs + cnt)))
    } else if typ == 3 {
        ValueView::Short(Seq::new(cnt as nat, |i: int| spec_u16(le, d, ofs + 2 * i)))
    } else if typ == 4 {
        ValueView::Long(Seq::new(cnt as nat, |i: int| spec_u32(le, d, ofs + 4 * i)))
    } else if typ == 5 {
        ValueView::Rational(
            Seq::new(
                cnt as nat,
                |i: int|
                    Rational {
                        num: spec_u32(le, d, ofs + 8 * i),
                        denom: spec_u32(le, d, ofs + 8 * i + 4),
                    },
            ),
        )
    } else if typ == 6 {
        ValueView::SByte(Seq::new(cnt as nat, |i: int| d[ofs + i] as i8))
    } else if typ == 7 {
        ValueView::Undefined(d.subrange(ofs, ofs + cnt), ofs as u32)
    } else if typ == 8 {
        ValueView::SShort(Seq::new(cnt as nat, |i: int| spec_u16(le, d, ofs + 2 * i) as i16))
    } else if typ == 9 {
        ValueView::SLong(Seq::new(cnt as nat, |i: int| spec_u32(le, d, ofs + 4 * i) as i32))
    } else if typ == 10 {
        ValueView::SRational(
            Seq::new(
                cnt as nat,
                |i: int|
                    SRational {
                        num: spec_u32(le, d, ofs + 8 * i) as i32,
                        denom: spec_u32(le, d, ofs + 8 * i + 4) as i32,
                    },
            ),
        )
    } else if typ == 11 {
        ValueView::Float(Seq::new(cnt as nat, |i: int| spec_u32(le, d, ofs + 4 * i)))
    } else if typ == 12 {
        ValueView::Double(Seq::new(cnt as nat, |i: int| spec_u64(le, d, ofs + 8 * i)))
    } else {
        ValueView::Unknown(typ, cnt as u32, ofs as u32)
    }
}

fn decode_bytes(d: &[u8], ofs: usize, cnt: usize) -> (r: Vec<u8>)
    requires
        ofs + cnt <= d@.len(),
    ensures
        r@ == d@.subrange(ofs as int, ofs + cnt),
{
    let mut v: Vec<u8> = Vec::new();
    let mut i: usize = 0;
    let _len = d.len();
    while i < cnt
        invariant
            i <= cnt,
            d@.len() <= usize::MAX,
            ofs + cnt <= d@.len(),
            v@ == d@.subrange(ofs as int, ofs + i),
        decreases cnt - i,
    {
        v.push(d[ofs + i]);
        i += 1;
        assert(v@ =~= d@.subrange(ofs as int, ofs + i));
    }
    v
}

fn decode_sbytes(d: &[u8], ofs: usize, cnt: usize) -> (r: Vec<i8>)
    requires
        ofs + cnt <= d@.len(),
    ensures
        r@ == Seq::new(cnt as nat, |i: int| d@[ofs + i] as i8),
{
    let mut v: Vec<i8> = Vec::new();
    let mut i: usize = 0;
    let _len = d.len();
    while i < cnt
        invariant
            i <= cnt,
            d@.len() <= usize::MAX,
            ofs + cnt <= d@.len(),
            v@ == Seq::new(i as nat, |j: int| d@[ofs + j] as i8),
        decreases cnt - i,
    {
        v.push(#[verifier::truncate] (d[ofs + i] as i8));
        i += 1;
        assert(v@ =~= Seq::new(i as nat, |j: int| d@[ofs + j] as i8));
    }
    v
}

fn decode_ascii(d: &[u8], ofs: usize, cnt: usize) -> (r: Vec<Vec<u8>>)
    requires
        ofs + cnt <= d@.len(),
    ensures
        strings_view(r@) == ascii_strings(d@.subrange(ofs as int, ofs + cnt)),
{
    let mut out: Vec<Vec<u8>> = Vec::new();
    let mut cur: Vec<u8> = Vec::new();
    let mut i: usize = 0;
    let _len = d.len();
    while i < cnt
        invariant
            i <= cnt,
            d@.len() <= usize::MAX,
            ofs + cnt <= d@.len(),
            strings_view(out@).push(cur@) == nul_pieces(
                d@.subrange(ofs as int, ofs + i),
            ),
        decreases cnt - i,
    {
        let b = d[ofs + i];
        let ghost prev = strings_view(out@).push(cur@);
        proof {
            let t = d@.subrange(ofs as int, ofs + i + 1);
            assert(t.drop_last() =~= d@.subrange(ofs as int, ofs + i));
            assert(t.last() == b);
        }
        if b == 0 {
            out.push(cur);
            cur = Vec::new();
        } else {
            cur.push(b);
        }
        i += 1;
        assert(strings_view(out@).push(cur@) =~= nul_pieces(
            d@.subrange(ofs as int, ofs + i),
        ));
    }
    if cur.len() > 0 {
        out.push(cur);
        assert(strings_view(out@) =~= nul_pieces(
            d@.subrange(ofs as int, ofs + cnt),
        ));
    } else {
        assert(strings_view(out@) =~= nul_pieces(
            d@.subrange(ofs as int, ofs + cnt),
        ).drop_last());
    }
    out
}

fn decode_u16s(le: bool, d: &[u8], ofs: usize, cnt: usize) -> (r: Vec<u16>)
    requires
        ofs + 2 * cnt <= d@.len(),
    ensures
        r@ == Seq::new(cnt as nat, |i: int| spec_u16(le, d@, ofs + 2 * i)),
{
    let mut v: Vec<u16> = Vec::new();
    let mut i: usize = 0;
    let _len = d.len();
    while i < cnt
        invariant
            i <= cnt,
            d@.len() <= usize::MAX,
            ofs + 2 * cnt <= d@.len(),
            v@ == Seq::new(i as nat, |j: int| spec_u16(le, d@, ofs + 2 * j)),
        decreases cnt - i,
    {
        v.push(load_u16(le, d, ofs + 2 * i));
        i += 1;
        assert(v@ =~= Seq::new(i as nat, |j: int| spec_u16(le, d@, ofs + 2 * j)));
    }
    v
}

fn decode_i16s(le: bool, d: &[u8], ofs: usize, cnt: usize) -> (r: Vec<i16>)
    requires
        ofs + 2 * cnt <= d@.len(),
    ensures
        r@ == Seq::new(cnt as nat, |i: int| spec_u16(le, d@, ofs + 2 * i) as i16),
{
    let mut v: Vec<i16> = Vec::new();
    let mut i: usize = 0;
    let _len = d.len();
    while i < cnt
        invariant
            i <= cnt,
            d@.len() <= usize::MAX,
            ofs + 2 * cnt <= d@.len(),
            v@ == Seq::new(i as nat, |j: int| spec_u16(le, d@, ofs + 2 * j) as i16),
        decreases cnt - i,
    {
        v.push(#[verifier::truncate] (load_u16(le, d, ofs + 2 * i) as i16));
        i += 1;
        assert(v@ =~= Seq::new(i as nat, |j: int| spec_u16(le, d@, ofs + 2 * j) as i16));
    }
    v
}

fn decode_u32s(le: bool, d: &[u8], ofs: usize, cnt: usize) -> (r: Vec<u32>)
    requires
        ofs + 4 * cnt <= d@.len(),
    ensures
        r@ == Seq::new(cnt as nat, |i: int| spec_u32(le, d@, ofs + 4 * i)),
{
    let mut v: Vec<u32> = Vec::new();
    let mut i: usize = 0;
    let _len = d.len();
    while i < cnt
        invariant
            i <= cnt,
            d@.len() <= usize::MAX,
            ofs + 4 * cnt <= d@.len(),
            v@ == Seq::new(i as nat, |j: int| spec_u32(le, d@, ofs + 4 * j)),
        decreases cnt - i,
    {
        v.push(load_u32(le, d, ofs + 4 * i));
        i += 1;
        assert(v@ =~= Seq::new(i as nat, |j: int| spec_u32(le, d@, ofs + 4 * j)));
    }
    v
}

fn decode_i32s(le: bool, d: &[u8], ofs: usize, cnt: usize) -> (r: Vec<i32>)
    requires
        ofs + 4 * cnt <= d@.len(),
    ensures
        r@ == Seq::new(cnt as nat, |i: int| spec_u32(le, d@, ofs + 4 * i) as i32),
{
    let mut v: Vec<i32> = Vec::new();
    let mut i: usize = 0;
    let _len = d.len();
    while i < cnt
        invariant
            i <= cnt,
            d@.len() <= usize::MAX,
            ofs + 4 * cnt <= d@.len(),
            v@ == Seq::new(i as nat, |j: int| spec_u32(le, d@, ofs + 4 * j) as i32),
        decreases cnt - i,
    {
        v.push(#[verifier::truncate] (load_u32(le, d, ofs + 4 * i) as i32));
        i += 1;
        assert(v@ =~= Seq::new(i as nat, |j: int| spec_u32(le, d@, ofs + 4 * j) as i32));
    }
    v
}

fn decode_u64s(le: bool, d: &[u8], ofs: usize, cnt: usize) -> (r: Vec<u64>)
    requires
        ofs + 8 * cnt <= d@.len(),
    ensures
        r@ == Seq::new(cnt as nat, |i: int| spec_u64(le, d@, ofs + 8 * i)),
{
    let mut v: Vec<u64> = Vec::new();
    let mut i: usize = 0;
    let _len = d.len();
    while i < cnt
        invariant
            i <= cnt,
            d@.len() <= usize::MAX,
            ofs + 8 * cnt <= d@.len(),
            v@ == Seq::new(i as nat, |j: int| spec_u64(le, d@, ofs + 8 * j)),
        decreases cnt - i,
    {
        v.push(load_u64(le, d, ofs + 8 * i));
        i += 1;
        assert(v@ =~= Seq::new(i as nat, |j: int| spec_u64(le, d@, ofs + 8 * j)));
    }
    v
}

fn decode_rationals(le: bool, d: &[u8], ofs: usize, cnt: usize) -> (r: Vec<Rational>)
    requires
        ofs + 8 * cnt <= d@.len(),
    ensures
        r@ == Seq::new(
            cnt as nat,
            |i: int|
                Rational {
                    num: spec_u32(le, d@, ofs + 8 * i),
                    denom: spec_u32(le, d@, ofs + 8 * i + 4),
                },
        ),
{
    let mut v: Vec<Rational> = Vec::new();
    let mut i: usize = 0;
    let _len = d.len();
    while i < cnt
        invariant
            i <= cnt,
            d@.len() <= usize::MAX,
            ofs + 8 * cnt <= d@.len(),
            v@ == Seq::new(
                i as nat,
                |j: int|
                    Rational {
                        num: spec_u32(le, d@, ofs + 8 * j),
                        denom: spec_u32(le, d@, ofs + 8 * j + 4),
                    },
            ),
        decreases cnt - i,
    {
        let num = load_u32(le, d, ofs + 8 * i);
        let denom = load_u32(le, d, ofs + 8 * i + 4);
        v.push(Rational { num, denom });
        i += 1;
        assert(v@ =~= Seq::new(
            i as nat,
            |j: int|
                Rational {
                    num: spec_u32(le, d@, ofs + 8 * j),
                    denom: spec_u32(le, d@, ofs + 8 * j + 4),
                },
        ));
    }
    v
}

fn decode_srationals(le: bool, d: &[u8], ofs: usize, cnt: usize) -> (r: Vec<SRational>)
    requires
        ofs + 8 * cnt <= d@.len(),
    ensures
        r@ == Seq::new(
            cnt as nat,
            |i: int|
                SRational {
                    num: spec_u32(le, d@, ofs + 8 * i) as i32,
                    denom: spec_u32(le, d@, ofs + 8 * i + 4) as i32,
                },
        ),
{
    let mut v: Vec<SRational> = Vec::new();
    let mut i: usize = 0;
    let _len = d.len();
    while i < cnt
        invariant
            i <= cnt,
            d@.len() <= usize::MAX,
            ofs + 8 * cnt <= d@.len(),
            v@ == Seq::new(
                i as nat,
                |j: int|
                    SRational {
                        num: spec_u32(le, d@, ofs + 8 * j) as i32,
                        denom: spec_u32(le, d@, ofs + 8 * j + 4) as i32,
                    },
            ),
        decreases cnt - i,
    {
        let num = #[verifier::truncate] (load_u32(le, d, ofs + 8 * i) as i32);
        let denom = #[verifier::truncate] (load_u32(le, d, ofs + 8 * i + 4) as i32);
        v.push(SRational { num, denom });
        i += 1;
        assert(v@ =~= Seq::new(
            i as nat,
            |j: int|
                SRational {
                    num: spec_u32(le, d@, ofs + 8 * j) as i32,
                    denom: spec_u32(le, d@, ofs + 8 * j + 4) as i32,
                },
        ));
    }
    v
}

/// Decodes `cnt` units of type `typ` stored at `ofs` in the given byte order.
pub fn decode_value(le: bool, typ: u16, d: &[u8], ofs: usize, cnt: usize) -> (r: Value)
    requires
        unit_size(typ) > 0,
        ofs + unit_size(typ) * cnt <= d@.len(),
    ensures
        r@ == decode_spec(le, typ, d@, ofs as int, cnt as int),
{
    match typ {
        1 => Value::Byte(decode_bytes(d, ofs, cnt)),
        2 => Value::Ascii(decode_ascii(d, ofs, cnt)),
        3 => Value::Short(decode_u16s(le, d, ofs, cnt)),
        4 => Value::Long(decode_u32s(le, d, ofs, cnt)),
        5 => Value::Rational(decode_rationals(le, d, ofs, cnt)),
        6 => Value::SByte(decode_sbytes(d, ofs, cnt)),
        7 => Value::Undefined(decode_bytes(d, ofs, cnt), ofs as u32),
        8 => Value::SShort(decode_i16s(le, d, ofs, cnt)),
        9 => Value::SLong(decode_i32s(le, d, ofs, cnt)),
        10 => Value::SRational(decode_srationals(le, d, ofs, cnt)),
        11 => Value::Float(decode_u32s(le, d, ofs, cnt)),
        _ => Value::Double(decode_u64s(le, d, ofs, cnt)),
    }
}

fn copy_units<T: Copy>(v: &Vec<T>) -> (r: Vec<T>)
    ensures
        r@ == v@,
{
    let mut out: Vec<T> = Vec::new();
    let mut i: usize = 0;
    while i < v.len()
        invariant
            i <= v@.len(),
            out@ == v@.subrange(0, i as int),
        decreases v@.len() - i,
    {
        out.push(v[i]);
        i += 1;
        assert(out@ =~= v@.subrange(0, i as int));
    }
    assert(out@ =~= v@);
    out
}

fn copy_strings(v: &Vec<Vec<u8>>) -> (r: Vec<Vec<u8>>)
    ensures
        strings_view(r@) == strings_view(v@),
{
    let mut out: Vec<Vec<u8>> = Vec::new();
    let mut i: usize = 0;
    while i < v.len()
        invariant
            i <= v@.len(),
            strings_view(out@) == strings_view(v@.subrange(0, i as int)),
        decreases v@.len() - i,
    {
        let ghost prev = out@;
        assert(strings_view(prev).len() == i);
        let c = copy_units(&v[i]);
        out.push(c);
        proof {
            assert forall|j: int| 0 <= j < i + 1 implies #[trigger] out@[j]@ == v@[j]@ by {
                if j < i {
                    assert(prev[j]@ == strings_view(prev)[j]);
                    assert(strings_view(v@.subrange(0, i as int))[j] == v@[j]@);
                }
            }
        }
        i += 1;
        assert(strings_view(out@) =~= strings_view(v@.subrange(0, i as int)));
    }
    assert(v@.subrange(0, v@.len() as int) =~= v@);
    out
}

/// The `i`-th element of a BYTE, SHORT or LONG value as an unsigned integer.
pub open spec fn uint_at(v: ValueView, i: int) -> Option<u32> {
    match v {
        ValueView::Byte(s) => if 0 <= i < s.len() { Some(s[i] as u32) } else { None },
        ValueView::Short(s) => if 0 <= i < s.len() { Some(s[i] as u32) } else { None },
        ValueView::Long(s) => if 0 <= i < s.len() { Some(s[i]) } else { None },
        _ => None,
    }
}

impl Value {
    /// Returns a copy of this value.
    pub fn copied(&self) -> (r: Value)
        ensures
            r@ == self@,
    {
        match self {
            Value::Byte(v) => Value::Byte(copy_units(v)),
            Value::Ascii(v) => Value::Ascii(copy_strings(v)),
            Value::Short(v) => Value::Short(copy_units(v)),
            Value::Long(v) => Value::Long(copy_units(v)),
            Value::Rational(v) => Value::Rational(copy_units(v)),
            Value::SByte(v) => Value::SByte(copy_units(v)),
            Value::Undefined(v, o) => Value::Undefined(copy_units(v), *o),
            Value::SShort(v) => Value::SShort(copy_units(v)),
            Value::SLong(v) => Value::SLong(copy_units(v)),
            Value::SRational(v) => Value::SRational(copy_units(v)),
            Value::Float(v) => Value::Float(copy_units(v)),
            Value::Double(v) => Value::Double(copy_units(v)),
            Value::Unknown(t, c, o) => Value::Unknown(*t, *c, *o),
        }
    }

    /// Returns the unsigned integer at `index` of a BYTE, SHORT or LONG
    /// value; `None` for other types or when the index is out of range.
    pub fn get_uint(&self, index: usize) -> (r: Option<u32>)
        ensures
            r == uint_at(self@, index as int),
    {
        match self {
            Value::Byte(v) => if index < v.len() { Some(v[index] as u32) } else { None },
            Value::Short(v) => if index < v.len() { Some(v[index] as u32) } else { None },
            Value::Long(v) => if index < v.len() { Some(v[index]) } else { None },
            _ => None,
        }
    }
}

/// The width of the integers that one unit of a type is made of: the
/// groups of bytes that a change of byte order reverses.
pub open spec fn swap_width(typ: u16) -> int {
    if typ == 3 || typ == 8 {
        2
    } else if typ == 4 || typ == 5 || typ == 9 || typ == 10 || typ == 11 {
        4
    } else if typ == 12 {
        8
    } else {
        1
    }
}

/// `e` holds the `n` bytes of `d` at `ofs`, each group of `w` bytes
/// reversed.
pub open spec fn reversed_groups(d: Seq<u8>, e: Seq<u8>, ofs: int, n: int, w: int) -> bool {
    forall|k: int, j: int|
        0 <= k && 0 <= j < w && k * w + w <= n ==> #[trigger] e[ofs + k * w + j] == d[ofs + k * w
            + (w - 1 - j)]
}

pub(crate) proof fn lemma_group2(d: Seq<u8>, e: Seq<u8>, ofs: int, n: int, k: int)
    requires
        reversed_groups(d, e, ofs, n, 2),
        0 <= k,
        k * 2 + 2 <= n,
    ensures
        spec_u16(true, e, ofs + 2 * k) == spec_u16(false, d, ofs + 2 * k),
{
    assert(e[ofs + k * 2 + 0] == d[ofs + k * 2 + 1]);
    assert(e[ofs + k * 2 + 1] == d[ofs + k * 2 + 0]);
}

pub(crate) proof fn lemma_group4(d: Seq<u8>, e: Seq<u8>, ofs: int, n: int, k: int)
    requires
        reversed_groups(d, e, ofs, n, 4),
        0 <= k,
        k * 4 + 4 <= n,
    ensures
        spec_u32(true, e, ofs + 4 * k) == spec_u32(false, d, ofs + 4 * k),
        spec_u16(true, e, ofs + 4 * k + 2) == spec_u16(false, d, ofs + 4 * k),
        spec_u16(true, e, ofs + 4 * k) == spec_u16(false, d, ofs + 4 * k + 2),
{
    assert(e[ofs + k * 4 + 0] == d[ofs + k * 4 + 3]);
    assert(e[ofs + k * 4 + 1] == d[ofs + k * 4 + 2]);
    assert(e[ofs + k * 4 + 2] == d[ofs + k * 4 + 1]);
    assert(e[ofs + k * 4 + 3] == d[ofs + k * 4 + 0]);
}

proof fn lemma_group8(d: Seq<u8>, e: Seq<u8>, ofs: int, n: int, k: int)
    requires
        reversed_groups(d, e, ofs, n, 8),
        0 <= k,
        k * 8 + 8 <= n,
    ensures
        spec_u64(true, e, ofs + 8 * k) == spec_u64(false, d, ofs + 8 * k),
{
    let b = ofs + k * 8;
    assert(e[b + 0] == d[b + 7]);
    assert(e[b + 1] == d[b + 6]);
    assert(e[b + 2] == d[b + 5]);
    assert(e[b + 3] == d[b + 4]);
    assert(e[b + 4] == d[b + 3]);
    assert(e[b + 5] == d[b + 2]);
    assert(e[b + 6] == d[b + 1]);
    assert(e[b + 7] == d[b + 0]);
}

/// A value decoded in little endian from bytes whose integers are stored
/// reversed equals the value decoded in big endian from the bytes as
/// they were: a change of byte order changes no decoded value.
pub proof fn lemma_decode_byte_order(typ: u16, d: Seq<u8>, e: Seq<u8>, ofs: int, cnt: int)
    requires
        unit_size(typ) > 0,
        0 <= ofs,
        0 <= cnt,
        ofs + unit_size(typ) * cnt <= d.len() == e.len(),
        reversed_groups(d, e, ofs, unit_size(typ) * cnt, swap_width(typ)),
    ensures
        decode_spec(true, typ, e, ofs, cnt) == decode_spec(false, typ, d, ofs, cnt),
{
    let a = decode_spec(true, typ, e, ofs, cnt);
    let b = decode_spec(false, typ, d, ofs, cnt);
    let n = unit_size(typ) * cnt;
    if swap_width(typ) == 1 {
        assert(unit_size(typ) == 1);
        assert(n == cnt);
        assert forall|i: int| 0 <= i < cnt implies #[trigger] e.subrange(ofs, ofs + cnt)[i]
            == d.subrange(ofs, ofs + cnt)[i] by {
            let k = i;
            let j = 0int;
            assert(k * 1 + 1 <= n);
            assert(e[ofs + k * 1 + j] == d[ofs + k * 1 + (1 - 1 - j)]);
            assert(ofs + k * 1 + j == ofs + i);
        }
        assert(e.subrange(ofs, ofs + cnt) =~= d.subrange(ofs, ofs + cnt));
        if typ == 6 {
            assert forall|i: int| 0 <= i < cnt implies #[trigger] a->SByte_0[i] == b->SByte_0[i] by {
                assert(e.subrange(ofs, ofs + cnt)[i] == d.subrange(ofs, ofs + cnt)[i]);
            }
            assert(a->SByte_0 =~= b->SByte_0);
        }
    }
    if typ == 3 {
        assert forall|i: int| 0 <= i < cnt implies #[trigger] a->Short_0[i] == b->Short_0[i] by {
            assert(i * 2 + 2 <= 2 * cnt);
            lemma_group2(d, e, ofs, n, i);
        }
        assert(a->Short_0 =~= b->Short_0);
    } else if typ == 4 {
        assert forall|i: int| 0 <= i < cnt implies #[trigger] a->Long_0[i] == b->Long_0[i] by {
            assert(i * 4 + 4 <= 4 * cnt);
            lemma_group4(d, e, ofs, n, i);
        }
        assert(a->Long_0 =~= b->Long_0);
    } else if typ == 5 {
        assert forall|i: int| 0 <= i < cnt implies #[trigger] a->Rational_0[i] == b->Rational_0[i] by {
            assert(i * 8 + 8 <= 8 * cnt);
            lemma_group4(d, e, ofs, n, 2 * i);
                lemma_group4(d, e, ofs, n, 2 * i + 1);
        }
        assert(a->Rational_0 =~= b->Rational_0);
    } else if typ == 8 {
        assert forall|i: int| 0 <= i < cnt implies #[trigger] a->SShort_0[i] == b->SShort_0[i] by {
            assert(i * 2 + 2 <= 2 * cnt);
            lemma_group2(d, e, ofs, n, i);
        }
        assert(a->SShort_0 =~= b->SShort_0);
    } else if typ == 9 {
        assert forall|i: int| 0 <= i < cnt implies #[trigger] a->SLong_0[i] == b->SLong_0[i] by {
            assert(i * 4 + 4 <= 4 * cnt);
            lemma_group4(d, e, ofs, n, i);
        }
        assert(a->SLong_0 =~= b->SLong_0);
    } else if typ == 10 {
        assert forall|i: int| 0 <= i < cnt implies #[trigger] a->SRational_0[i] == b->SRational_0[i] by {
            assert(i * 8 + 8 <= 8 * cnt);
            lemma_group4(d, e, ofs, n, 2 * i);
                lemma_group4(d, e, ofs, n, 2 * i + 1);
        }
        assert(a->SRational_0 =~= b->SRational_0);
    } else if typ == 11 {
        assert forall|i: int| 0 <= i < cnt implies #[trigger] a->Float_0[i] == b->Float_0[i] by {
            assert(i * 4 + 4 <= 4 * cnt);
            lemma_group4(d, e, ofs, n, i);
        }
        assert(a->Float_0 =~= b->Float_0);
    } else if typ == 12 {
        assert forall|i: int| 0 <= i < cnt implies #[trigger] a->Double_0[i] == b->Double_0[i] by {
            assert(i * 8 + 8 <= 8 * cnt);
            lemma_group8(d, e, ofs, n, i);
        }
        assert(a->Double_0 =~= b->Double_0);
    }
}

} // verus!
