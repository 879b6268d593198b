use vstd::prelude::*;

use crate::text::{dec, dec_signed, digit_char, push_char, push_int, push_str, push_uint, push_uint_padded, zero_pad};
use crate::exif::{lookup, Exif};
use crate::ifd::{Field, In};
use crate::tag::{spec_tag_info, DefaultValue, Format, Tag, Unit, UnitPiece};
use crate::util::{all_digits, atou16, digits_value};
use crate::value::{strings_view, uint_at, Rational, SRational, Value, ValueView};

verus! {

/// A lowercase hexadecimal digit.
pub open spec fn hex_digit(n: int) -> char {
    if n < 10 {
        digit_char(n)
    } else {
        ((n - 10 + 0x61) as u8) as char
    }
}

/// The `width` lowest hexadecimal digits of `n`.
pub open spec fn hex(n: nat, width: nat) -> Seq<char>
    decreases width,
{
    if width == 0 {
        Seq::empty()
    } else {
        hex(n / 16, (width - 1) as nat).push(hex_digit((n % 16) as int))
    }
}

/// The hexadecimal representation of `n`, without leading zeros.
pub open spec fn hex_min(n: nat) -> Seq<char>
    decreases n,
{
    if n < 16 {
        seq![hex_digit(n as int)]
    } else {
        hex_min(n / 16).push(hex_digit((n % 16) as int))
    }
}

/// Items separated by ", ".
pub open spec fn join(items: Seq<Seq<char>>) -> Seq<char>
    decreases items.len(),
{
    if items.len() == 0 {
        Seq::empty()
    } else if items.len() == 1 {
        items[0]
    } else {
        join(items.drop_last()) + seq![',', ' '] + items.last()
    }
}

/// How a byte of an ASCII string is shown between quotes.
pub open spec fn escape_byte(b: u8) -> Seq<char> {
    if b == 0x22 || b == 0x5c {
        seq!['\\', b as char]
    } else if 0x20 <= b <= 0x7e {
        seq![b as char]
    } else {
        seq!['\\', 'x'] + hex(b as nat, 2)
    }
}

/// The bytes of an ASCII string, escaped.
pub open spec fn escape_bytes(s: Seq<u8>) -> Seq<char>
    decreases s.len(),
{
    if s.len() == 0 {
        Seq::empty()
    } else {
        escape_bytes(s.drop_last()) + escape_byte(s.last())
    }
}

/// Two hexadecimal digits for each byte.
pub open spec fn hex_bytes(s: Seq<u8>) -> Seq<char>
    decreases s.len(),
{
    if s.len() == 0 {
        Seq::empty()
    } else {
        hex_bytes(s.drop_last()) + hex(s.last() as nat, 2)
    }
}

/// The fractional digits of `r / d`, nine at most, stopping when exact.
pub open spec fn frac_digits(r: nat, d: nat, k: nat) -> Seq<char>
    decreases k,
{
    if r == 0 || k == 0 || d == 0 {
        Seq::empty()
    } else {
        seq![digit_char(((r * 10) / d) as int)] + frac_digits((r * 10) % d, d, (k - 1) as nat)
    }
}

/// A rational number as a decimal number: the integer part, then up to
/// nine fractional digits (rounded down); `n/0` when the denominator is 0.
pub open spec fn decimal(r: Rational) -> Seq<char> {
    if r.denom == 0 {
        dec(r.num as nat) + seq!['/', '0']
    } else {
        let q = (r.num / r.denom) as nat;
        let m = (r.num % r.denom) as nat;
        if m == 0 {
            dec(q)
        } else {
            dec(q) + seq!['.'] + frac_digits(m, r.denom as nat, 9)
        }
    }
}

/// An integer element of a value.
pub trait IntUnit: Copy {
    spec fn int_value(self) -> int;

    fn to_i64(self) -> (r: i64)
        ensures
            r as int == self.int_value(),
    ;
}

impl IntUnit for u8 {
    open spec fn int_value(self) -> int {
        self as int
    }

    fn to_i64(self) -> (r: i64) {
        self as i64
    }
}

impl IntUnit for u16 {
    open spec fn int_value(self) -> int {
        self as int
    }

    fn to_i64(self) -> (r: i64) {
        self as i64
    }
}

impl IntUnit for u32 {
    open spec fn int_value(self) -> int {
        self as int
    }

    fn to_i64(self) -> (r: i64) {
        self as i64
    }
}

impl IntUnit for i8 {
    open spec fn int_value(self) -> int {
        self as int
    }

    fn to_i64(self) -> (r: i64) {
        self as i64
    }
}

impl IntUnit for i16 {
    open spec fn int_value(self) -> int {
        self as int
    }

    fn to_i64(self) -> (r: i64) {
        self as i64
    }
}

impl IntUnit for i32 {
    open spec fn int_value(self) -> int {
        self as int
    }

    fn to_i64(self) -> (r: i64) {
        self as i64
    }
}

/// Integers in decimal.
pub open spec fn int_items<T: IntUnit>(s: Seq<T>) -> Seq<Seq<char>> {
    Seq::new(s.len(), |i: int| dec_signed(s[i].int_value()))
}

/// Unsigned rationals as `n/d`.
pub open spec fn rational_items(s: Seq<Rational>) -> Seq<Seq<char>> {
    Seq::new(s.len(), |i: int| dec(s[i].num as nat) + seq!['/'] + dec(s[i].denom as nat))
}

/// Signed rationals as `n/d`.
pub open spec fn srational_items(s: Seq<SRational>) -> Seq<Seq<char>> {
    Seq::new(
        s.len(),
        |i: int| dec_signed(s[i].num as int) + seq!['/'] + dec_signed(s[i].denom as int),
    )
}

/// Unsigned rationals as decimal numbers.
pub open spec fn decimal_items(s: Seq<Rational>) -> Seq<Seq<char>> {
    Seq::new(s.len(), |i: int| decimal(s[i]))
}

/// 32-bit patterns in hexadecimal, eight digits each.
pub open spec fn bits32_items(s: Seq<u32>) -> Seq<Seq<char>> {
    Seq::new(s.len(), |i: int| seq!['0', 'x'] + hex(s[i] as nat, 8))
}

/// Bit patterns in hexadecimal, `width` digits each.
pub open spec fn bits_items(s: Seq<u64>, width: nat) -> Seq<Seq<char>> {
    Seq::new(s.len(), |i: int| seq!['0', 'x'] + hex(s[i] as nat, width))
}

/// Strings between quotes.
pub open spec fn ascii_strings_items(s: Seq<Vec<u8>>) -> Seq<Seq<char>> {
    Seq::new(s.len(), |i: int| seq!['"'] + escape_bytes(s[i]@) + seq!['"'])
}

/// Strings between quotes.
pub open spec fn ascii_items(s: Seq<Seq<u8>>) -> Seq<Seq<char>> {
    Seq::new(s.len(), |i: int| seq!['"'] + escape_bytes(s[i]) + seq!['"'])
}

proof fn lemma_join_push(items: Seq<Seq<char>>, x: Seq<char>)
    ensures
        join(items.push(x)) == if items.len() == 0 {
            x
        } else {
            join(items) + seq![',', ' '] + x
        },
{
    assert(items.push(x).drop_last() =~= items);
}

fn push_sep(s: &mut String, i: usize)
    ensures
        final(s)@ == old(s)@ + if i == 0 {
            Seq::<char>::empty()
        } else {
            seq![',', ' ']
        },
{
    if i != 0 {
        push_char(s, ',');
        push_char(s, ' ');
        assert(s@ =~= old(s)@ + seq![',', ' ']);
    } else {
        assert(s@ =~= old(s)@ + Seq::<char>::empty());
    }
}

fn push_ints<T: IntUnit>(s: &mut String, v: &Vec<T>)
    ensures
        final(s)@ == old(s)@ + join(int_items(v@)),
{
    let ghost start = s@;
    let mut i: usize = 0;
    assert(int_items(v@.subrange(0, 0)) =~= Seq::<Seq<char>>::empty());
    while i < v.len()
        invariant
            i <= v@.len(),
            s@ == start + join(int_items(v@.subrange(0, i as int))),
        decreases v@.len() - i,
    {
        let ghost items = int_items(v@.subrange(0, i as int));
        let ghost mid = s@;
        push_sep(s, i);
        let ghost sep = s@;
        push_int(s, v[i].to_i64());
        proof {
            let x = int_items(v@)[i as int];
            assert(int_items(v@.subrange(0, i + 1)) =~= items.push(x));
            assert(s@ =~= sep + x);
            lemma_join_push(items, x);
            if i == 0 {
                assert(s@ =~= start + join(items.push(x)));
            } else {
                assert(s@ =~= start + join(items.push(x)));
            }
        }
        i += 1;
    }
    assert(v@.subrange(0, i as int) =~= v@);
}

fn push_rationals(s: &mut String, v: &Vec<Rational>)
    ensures
        final(s)@ == old(s)@ + join(rational_items(v@)),
{
    let ghost start = s@;
    let mut i: usize = 0;
    assert(rational_items(v@.subrange(0, 0)) =~= Seq::<Seq<char>>::empty());
    while i < v.len()
        invariant
            i <= v@.len(),
            s@ == start + join(rational_items(v@.subrange(0, i as int))),
        decreases v@.len() - i,
    {
        let ghost items = rational_items(v@.subrange(0, i as int));
        let ghost mid = s@;
        push_sep(s, i);
        let ghost sep = s@;
        push_uint(s, v[i].num as u64);
        push_char(s, '/');
        push_uint(s, v[i].denom as u64);
        proof {
            let x = rational_items(v@)[i as int];
            assert(rational_items(v@.subrange(0, i + 1)) =~= items.push(x));
            assert(s@ =~= sep + x);
            lemma_join_push(items, x);
            if i == 0 {
                assert(s@ =~= start + join(items.push(x)));
            } else {
                assert(s@ =~= start + join(items.push(x)));
            }
        }
        i += 1;
    }
    assert(v@.subrange(0, i as int) =~= v@);
}

fn push_srationals(s: &mut String, v: &Vec<SRational>)
    ensures
        final(s)@ == old(s)@ + join(srational_items(v@)),
{
    let ghost start = s@;
    let mut i: usize = 0;
    assert(srational_items(v@.subrange(0, 0)) =~= Seq::<Seq<char>>::empty());
    while i < v.len()
        invariant
            i <= v@.len(),
            s@ == start + join(srational_items(v@.subrange(0, i as int))),
        decreases v@.len() - i,
    {
        let ghost items = srational_items(v@.subrange(0, i as int));
        let ghost mid = s@;
        push_sep(s, i);
        let ghost sep = s@;
        push_int(s, v[i].num as i64);
        push_char(s, '/');
        push_int(s, v[i].denom as i64);
        proof {
            let x = srational_items(v@)[i as int];
            assert(srational_items(v@.subrange(0, i + 1)) =~= items.push(x));
            assert(s@ =~= sep + x);
            lemma_join_push(items, x);
            if i == 0 {
                assert(s@ =~= start + join(items.push(x)));
            } else {
                assert(s@ =~= start + join(items.push(x)));
            }
        }
        i += 1;
    }
    assert(v@.subrange(0, i as int) =~= v@);
}

fn push_decimals(s: &mut String, v: &Vec<Rational>)
    ensures
        final(s)@ == old(s)@ + join(decimal_items(v@)),
{
    let ghost start = s@;
    let mut i: usize = 0;
    assert(decimal_items(v@.subrange(0, 0)) =~= Seq::<Seq<char>>::empty());
    while i < v.len()
        invariant
            i <= v@.len(),
            s@ == start + join(decimal_items(v@.subrange(0, i as int))),
        decreases v@.len() - i,
    {
        let ghost items = decimal_items(v@.subrange(0, i as int));
        let ghost mid = s@;
        push_sep(s, i);
        let ghost sep = s@;
        push_decimal(s, v[i]);
        proof {
            let x = decimal_items(v@)[i as int];
            assert(decimal_items(v@.subrange(0, i + 1)) =~= items.push(x));
            assert(s@ =~= sep + x);
            lemma_join_push(items, x);
            if i == 0 {
                assert(s@ =~= start + join(items.push(x)));
            } else {
                assert(s@ =~= start + join(items.push(x)));
            }
        }
        i += 1;
    }
    assert(v@.subrange(0, i as int) =~= v@);
}

fn push_ascii(s: &mut String, v: &Vec<Vec<u8>>)
    ensures
        final(s)@ == old(s)@ + join(ascii_strings_items(v@)),
{
    let ghost start = s@;
    let mut i: usize = 0;
    assert(ascii_strings_items(v@.subrange(0, 0)) =~= Seq::<Seq<char>>::empty());
    while i < v.len()
        invariant
            i <= v@.len(),
            s@ == start + join(ascii_strings_items(v@.subrange(0, i as int))),
        decreases v@.len() - i,
    {
        let ghost items = ascii_strings_items(v@.subrange(0, i as int));
        let ghost mid = s@;
        push_sep(s, i);
        let ghost sep = s@;
        push_char(s, '"');
        push_escaped(s, &v[i]);
        push_char(s, '"');
        proof {
            let x = ascii_strings_items(v@)[i as int];
            assert(ascii_strings_items(v@.subrange(0, i + 1)) =~= items.push(x));
            assert(s@ =~= sep + x);
            lemma_join_push(items, x);
            if i == 0 {
                assert(s@ =~= start + join(items.push(x)));
            } else {
                assert(s@ =~= start + join(items.push(x)));
            }
        }
        i += 1;
    }
    assert(v@.subrange(0, i as int) =~= v@);
}

fn push_bits(s: &mut String, v: &Vec<u64>, width: u64)
    requires
        width <= 16,
    ensures
        final(s)@ == old(s)@ + join(bits_items(v@, width as nat)),
{
    let ghost start = s@;
    let mut i: usize = 0;
    assert(bits_items(v@.subrange(0, 0), width as nat) =~= Seq::<Seq<char>>::empty());
    while i < v.len()
        invariant
            i <= v@.len(),
            width <= 16,
            s@ == start + join(bits_items(v@.subrange(0, i as int), width as nat)),
        decreases v@.len() - i,
    {
        let ghost items = bits_items(v@.subrange(0, i as int), width as nat);
        push_sep(s, i);
        let ghost sep = s@;
        push_char(s, '0');
        push_char(s, 'x');
        push_hex(s, v[i], width);
        proof {
            let x = bits_items(v@, width as nat)[i as int];
            assert(bits_items(v@.subrange(0, i + 1), width as nat) =~= items.push(x));
            assert(s@ =~= sep + x);
            lemma_join_push(items, x);
            assert(s@ =~= start + join(items.push(x)));
        }
        i += 1;
    }
    assert(v@.subrange(0, i as int) =~= v@);
}

fn hex_char(d: u64) -> (c: char)
    requires
        d < 16,
    ensures
        c == hex_digit(d as int),
{
    if d < 10 {
        crate::text::digit(d)
    } else {
        ((d as u8) - 10 + 0x61) as char
    }
}

/// Appends the `width` lowest hexadecimal digits of `n`.
fn push_hex(s: &mut String, n: u64, width: u64)
    ensures
        final(s)@ == old(s)@ + hex(n as nat, width as nat),
    decreases width,
{
    if width > 0 {
        push_hex(s, n / 16, width - 1);
        push_char(s, hex_char(n % 16));
        assert(s@ =~= old(s)@ + hex(n as nat, width as nat));
    } else {
        assert(s@ =~= old(s)@ + hex(n as nat, width as nat));
    }
}

/// Appends the hexadecimal representation of `n`.
fn push_hex_min(s: &mut String, n: u64)
    ensures
        final(s)@ == old(s)@ + hex_min(n as nat),
    decreases n,
{
    if n < 16 {
        push_char(s, hex_char(n));
        assert(s@ =~= old(s)@ + hex_min(n as nat));
    } else {
        push_hex_min(s, n / 16);
        push_char(s, hex_char(n % 16));
        assert(s@ =~= old(s)@ + hex_min(n as nat));
    }
}

fn escape_char(b: u8) -> (c: char)
    ensures
        c == b as char,
{
    b as char
}

fn push_escaped(s: &mut String, v: &Vec<u8>)
    ensures
        final(s)@ == old(s)@ + escape_bytes(v@),
{
    let ghost start = s@;
    let mut i: usize = 0;
    assert(escape_bytes(v@.subrange(0, 0)) =~= Seq::<char>::empty());
    while i < v.len()
        invariant
            i <= v@.len(),
            s@ == start + escape_bytes(v@.subrange(0, i as int)),
        decreases v@.len() - i,
    {
        let b = v[i];
        let ghost mid = s@;
        if b == 0x22 || b == 0x5c {
            push_char(s, '\\');
            push_char(s, escape_char(b));
        } else if 0x20 <= b && b <= 0x7e {
            push_char(s, escape_char(b));
        } else {
            push_char(s, '\\');
            push_char(s, 'x');
            push_hex(s, b as u64, 2);
        }
        proof {
            assert(s@ =~= mid + escape_byte(b));
            assert(v@.subrange(0, i + 1).drop_last() =~= v@.subrange(0, i as int));
            assert(s@ =~= start + escape_bytes(v@.subrange(0, i + 1)));
        }
        i += 1;
    }
    assert(v@.subrange(0, i as int) =~= v@);
}

fn push_hex_bytes(s: &mut String, v: &Vec<u8>)
    ensures
        final(s)@ == old(s)@ + hex_bytes(v@),
{
    let ghost start = s@;
    let mut i: usize = 0;
    assert(hex_bytes(v@.subrange(0, 0)) =~= Seq::<char>::empty());
    while i < v.len()
        invariant
            i <= v@.len(),
            s@ == start + hex_bytes(v@.subrange(0, i as int)),
        decreases v@.len() - i,
    {
        let ghost mid = s@;
        push_hex(s, v[i] as u64, 2);
        proof {
            assert(v@.subrange(0, i + 1).drop_last() =~= v@.subrange(0, i as int));
            assert(s@ =~= start + hex_bytes(v@.subrange(0, i + 1)));
        }
        i += 1;
    }
    assert(v@.subrange(0, i as int) =~= v@);
}

fn push_frac(s: &mut String, r: u64, d: u64, k: u64)
    requires
        r < d <= u32::MAX,
    ensures
        final(s)@ == old(s)@ + frac_digits(r as nat, d as nat, k as nat),
    decreases k,
{
    if r == 0 || k == 0 {
        assert(s@ =~= old(s)@ + frac_digits(r as nat, d as nat, k as nat));
        return;
    }
    let t = r * 10;
    assert(t / d < 10) by (nonlinear_arith)
        requires
            t == r * 10,
            r < d,
            d > 0,
    ;
    assert(t % d < d) by (nonlinear_arith)
        requires
            d > 0,
    ;
    push_char(s, crate::text::digit(t / d));
    push_frac(s, t % d, d, k - 1);
    assert(s@ =~= old(s)@ + frac_digits(r as nat, d as nat, k as nat));
}

/// Appends a rational number as a decimal number.
fn push_decimal(s: &mut String, r: Rational)
    ensures
        final(s)@ == old(s)@ + decimal(r),
{
    if r.denom == 0 {
        push_uint(s, r.num as u64);
        push_char(s, '/');
        push_char(s, '0');
        assert(s@ =~= old(s)@ + decimal(r));
    } else {
        let q = r.num / r.denom;
        let m = r.num % r.denom;
        push_uint(s, q as u64);
        if m != 0 {
            push_char(s, '.');
            push_frac(s, m as u64, r.denom as u64, 9);
        }
        assert(s@ =~= old(s)@ + decimal(r));
    }
}

fn push_bits32(s: &mut String, v: &Vec<u32>)
    ensures
        final(s)@ == old(s)@ + join(bits32_items(v@)),
{
    let ghost start = s@;
    let mut i: usize = 0;
    assert(bits32_items(v@.subrange(0, 0)) =~= Seq::<Seq<char>>::empty());
    while i < v.len()
        invariant
            i <= v@.len(),
            s@ == start + join(bits32_items(v@.subrange(0, i as int))),
        decreases v@.len() - i,
    {
        let ghost items = bits32_items(v@.subrange(0, i as int));
        push_sep(s, i);
        let ghost sep = s@;
        push_char(s, '0');
        push_char(s, 'x');
        push_hex(s, v[i] as u64, 8);
        proof {
            let x = bits32_items(v@)[i as int];
            assert(bits32_items(v@.subrange(0, i + 1)) =~= items.push(x));
            assert(s@ =~= sep + x);
            lemma_join_push(items, x);
            assert(s@ =~= start + join(items.push(x)));
        }
        i += 1;
    }
    assert(v@.subrange(0, i as int) =~= v@);
}

/// The rendering of a value that no tag-specific rule applies to: the
/// elements separated by commas; rationals as `n/d`; strings quoted;
/// undefined bytes and floating-point bit patterns in hexadecimal.
pub open spec fn render_default(v: ValueView) -> Seq<char> {
    match v {
        ValueView::Byte(s) => join(int_items(s)),
        ValueView::Ascii(s) => join(ascii_items(s)),
        ValueView::Short(s) => join(int_items(s)),
        ValueView::Long(s) => join(int_items(s)),
        ValueView::Rational(s) => join(rational_items(s)),
        ValueView::SByte(s) => join(int_items(s)),
        ValueView::Undefined(s, _) => seq!['0', 'x'] + hex_bytes(s),
        ValueView::SShort(s) => join(int_items(s)),
        ValueView::SLong(s) => join(int_items(s)),
        ValueView::SRational(s) => join(srational_items(s)),
        ValueView::Float(s) => join(bits32_items(s)),
        ValueView::Double(s) => join(bits_items(s, 16)),
        ValueView::Unknown(t, c, o) => "unknown value (type="@ + dec(t as nat) + ", count="@ + dec(
            c as nat,
        ) + ", offset=0x"@ + hex_min(o as nat) + ")"@,
    }
}

/// A four-digit version such as "0231" as "2.31", "0220" as "2.2".
pub open spec fn render_version(v: ValueView) -> Seq<char> {
    match v {
        ValueView::Undefined(u, _) => if u.len() == 4 && all_digits(u.subrange(0, 2)) && all_digits(
            u.subrange(2, 4),
        ) {
            let major = digits_value(u.subrange(0, 2));
            let minor = digits_value(u.subrange(2, 4));
            if minor % 10 == 0 {
                dec(major) + seq!['.'] + dec((minor / 10) as nat)
            } else {
                dec(major) + seq!['.'] + zero_pad(dec(minor), 2)
            }
        } else {
            "unknown format "@ + render_default(v)
        },
        _ => "unknown format "@ + render_default(v),
    }
}

/// The rendering convention of a tag.
pub open spec fn format_of(t: Tag) -> Format {
    match spec_tag_info(t) {
        Some(i) => i.format,
        None => Format::Default,
    }
}

/// The text of a value of the tag `t`.
pub open spec fn render_value(t: Tag, v: ValueView) -> Seq<char> {
    match format_of(t) {
        Format::Default => render_default(v),
        Format::Decimal => match v {
            ValueView::Rational(s) => join(decimal_items(s)),
            _ => render_default(v),
        },
        Format::ExifVersion => render_version(v),
        Format::ResolutionUnit => if uint_at(v, 0) == Some(1u32) {
            "none"@
        } else if uint_at(v, 0) == Some(2u32) {
            "inch"@
        } else if uint_at(v, 0) == Some(3u32) {
            "cm"@
        } else {
            "unknown unit "@ + render_default(v)
        },
        Format::GpsDms => match v {
            ValueView::Rational(s) => if s.len() >= 3 {
                decimal(s[0]) + " deg "@ + decimal(s[1]) + " min "@ + decimal(s[2]) + " sec"@
            } else {
                render_default(v)
            },
            _ => render_default(v),
        },
        Format::GpsAltitudeRef => if uint_at(v, 0) == Some(0u32) {
            "above sea level"@
        } else if uint_at(v, 0) == Some(1u32) {
            "below sea level"@
        } else {
            "unknown "@ + render_default(v)
        },
    }
}

fn push_default(s: &mut String, v: &Value)
    ensures
        final(s)@ == old(s)@ + render_default(v@),
{
    match v {
        Value::Byte(x) => push_ints(s, x),
        Value::Ascii(x) => {
            push_ascii(s, x);
            assert(ascii_strings_items(x@) =~= ascii_items(strings_view(x@)));
        },
        Value::Short(x) => push_ints(s, x),
        Value::Long(x) => push_ints(s, x),
        Value::Rational(x) => push_rationals(s, x),
        Value::SByte(x) => push_ints(s, x),
        Value::Undefined(x, _) => {
            push_char(s, '0');
            push_char(s, 'x');
            push_hex_bytes(s, x);
            assert(s@ =~= old(s)@ + render_default(v@));
        },
        Value::SShort(x) => push_ints(s, x),
        Value::SLong(x) => push_ints(s, x),
        Value::SRational(x) => push_srationals(s, x),
        Value::Float(x) => push_bits32(s, x),
        Value::Double(x) => push_bits(s, x, 16),
        Value::Unknown(t, c, o) => {
            push_str(s, "unknown value (type=");
            push_uint(s, *t as u64);
            push_str(s, ", count=");
            push_uint(s, *c as u64);
            push_str(s, ", offset=0x");
            push_hex_min(s, *o as u64);
            push_str(s, ")");
            assert(s@ =~= old(s)@ + render_default(v@));
        },
    }
}

fn push_version(s: &mut String, v: &Value)
    ensures
        final(s)@ == old(s)@ + render_version(v@),
{
    if let Value::Undefined(u, _) = v {
        if u.len() == 4 {
            let major = atou16(u.as_slice(), 0, 2);
            let minor = atou16(u.as_slice(), 2, 4);
            proof {
                reveal_with_fuel(crate::util::pow10, 3);
            }
            if let (Ok(major), Ok(minor)) = (major, minor) {
                push_uint(s, major as u64);
                push_char(s, '.');
                if minor % 10 == 0 {
                    push_uint(s, (minor / 10) as u64);
                } else {
                    push_uint_padded(s, minor as u64, 2);
                }
                assert(s@ =~= old(s)@ + render_version(v@));
                return;
            }
        }
    }
    push_str(s, "unknown format ");
    push_default(s, v);
    assert(s@ =~= old(s)@ + render_version(v@));
}

/// Renders a value in the format of the tag `t`.
pub fn render(t: Tag, v: &Value) -> (r: String)
    ensures
        r@ == render_value(t, v@),
{
    let format = match t.info() {
        Some(i) => i.format,
        None => Format::Default,
    };
    let mut s = String::new();
    match format {
        Format::Default => push_default(&mut s, v),
        Format::Decimal => match v {
            Value::Rational(x) => push_decimals(&mut s, x),
            _ => push_default(&mut s, v),
        },
        Format::ExifVersion => push_version(&mut s, v),
        Format::ResolutionUnit => {
            let u = v.get_uint(0);
            if u == Some(1u32) {
                push_str(&mut s, "none");
            } else if u == Some(2u32) {
                push_str(&mut s, "inch");
            } else if u == Some(3u32) {
                push_str(&mut s, "cm");
            } else {
                push_str(&mut s, "unknown unit ");
                push_default(&mut s, v);
            }
        },
        Format::GpsDms => match v {
            Value::Rational(x) => if x.len() >= 3 {
                push_decimal(&mut s, x[0]);
                push_str(&mut s, " deg ");
                push_decimal(&mut s, x[1]);
                push_str(&mut s, " min ");
                push_decimal(&mut s, x[2]);
                push_str(&mut s, " sec");
            } else {
                push_default(&mut s, v);
            },
            _ => push_default(&mut s, v),
        },
        Format::GpsAltitudeRef => {
            let u = v.get_uint(0);
            if u == Some(0u32) {
                push_str(&mut s, "above sea level");
            } else if u == Some(1u32) {
                push_str(&mut s, "below sea level");
            } else {
                push_str(&mut s, "unknown ");
                push_default(&mut s, v);
            }
        },
    }
    assert(s@ =~= render_value(t, v@));
    s
}

/// The pieces of a unit template.
pub open spec fn unit_pieces(u: Unit) -> Seq<UnitPiece> {
    match u {
        Unit::Pixels => seq![UnitPiece::Value, UnitPiece::Str(" pixels")],
        Unit::PixelsPerResolutionUnit => seq![
            UnitPiece::Value,
            UnitPiece::Str(" pixels per "),
            UnitPiece::Tag(Tag(crate::tag::Context::Tiff, 0x128)),
        ],
        Unit::Seconds => seq![UnitPiece::Value, UnitPiece::Str(" s")],
        Unit::FNumber => seq![UnitPiece::Str("f/"), UnitPiece::Value],
        Unit::Millimeters => seq![UnitPiece::Value, UnitPiece::Str(" mm")],
        Unit::Percent => seq![UnitPiece::Value, UnitPiece::Str(" %")],
        Unit::LatitudeRef => seq![
            UnitPiece::Value,
            UnitPiece::Str(" "),
            UnitPiece::Tag(Tag(crate::tag::Context::Gps, 0x1)),
        ],
        Unit::LongitudeRef => seq![
            UnitPiece::Value,
            UnitPiece::Str(" "),
            UnitPiece::Tag(Tag(crate::tag::Context::Gps, 0x3)),
        ],
        Unit::MetersAltitudeRef => seq![
            UnitPiece::Value,
            UnitPiece::Str(" meters "),
            UnitPiece::Tag(Tag(crate::tag::Context::Gps, 0x5)),
        ],
    }
}

fn unit_pieces_of(u: Unit) -> (r: Vec<UnitPiece>)
    ensures
        r@ == unit_pieces(u),
{
    let r = match u {
        Unit::Pixels => vec![UnitPiece::Value, UnitPiece::Str(" pixels")],
        Unit::PixelsPerResolutionUnit => vec![
            UnitPiece::Value,
            UnitPiece::Str(" pixels per "),
            UnitPiece::Tag(Tag(crate::tag::Context::Tiff, 0x128)),
        ],
        Unit::Seconds => vec![UnitPiece::Value, UnitPiece::Str(" s")],
        Unit::FNumber => vec![UnitPiece::Str("f/"), UnitPiece::Value],
        Unit::Millimeters => vec![UnitPiece::Value, UnitPiece::Str(" mm")],
        Unit::Percent => vec![UnitPiece::Value, UnitPiece::Str(" %")],
        Unit::LatitudeRef => vec![
            UnitPiece::Value,
            UnitPiece::Str(" "),
            UnitPiece::Tag(Tag(crate::tag::Context::Gps, 0x1)),
        ],
        Unit::LongitudeRef => vec![
            UnitPiece::Value,
            UnitPiece::Str(" "),
            UnitPiece::Tag(Tag(crate::tag::Context::Gps, 0x3)),
        ],
        Unit::MetersAltitudeRef => vec![
            UnitPiece::Value,
            UnitPiece::Str(" meters "),
            UnitPiece::Tag(Tag(crate::tag::Context::Gps, 0x5)),
        ],
    };
    assert(r@ =~= unit_pieces(u));
    r
}

/// The unit template of a tag, if it has one.
pub open spec fn unit_of(t: Tag) -> Option<Seq<UnitPiece>> {
    match spec_tag_info(t) {
        Some(i) => match i.unit {
            Some(u) => Some(unit_pieces(u)),
            None => None,
        },
        None => None,
    }
}

/// The value that a tag has when it is absent, if it has one.
pub open spec fn default_of(t: Tag) -> Option<ValueView> {
    match spec_tag_info(t) {
        Some(i) => match i.default {
            Some(DefaultValue::Short(n)) => Some(ValueView::Short(seq![n])),
            Some(DefaultValue::Byte(n)) => Some(ValueView::Byte(seq![n])),
            None => None,
        },
        None => None,
    }
}

/// The name of a tag.
pub open spec fn tag_name(t: Tag) -> Seq<char> {
    match spec_tag_info(t) {
        Some(i) => i.name@,
        None => "unknown tag"@,
    }
}

/// What supplies the fields that units refer to.
pub trait ProvideUnit {
    /// The value of the field with the given tag and IFD number, if there
    /// is one.
    spec fn unit_field(&self, tag: Tag, ifd_num: In) -> Option<ValueView>;

    /// Returns the field with the given tag and IFD number.
    fn get_field(&self, tag: Tag, ifd_num: In) -> (r: Option<Field>)
        ensures
            match self.unit_field(tag, ifd_num) {
                Some(v) => r is Some && r->Some_0.value@ == v && r->Some_0.tag == tag
                    && r->Some_0.ifd_num == ifd_num,
                None => r is None,
            },
    ;
}

impl ProvideUnit for () {
    open spec fn unit_field(&self, tag: Tag, ifd_num: In) -> Option<ValueView> {
        None
    }

    fn get_field(&self, tag: Tag, ifd_num: In) -> (r: Option<Field>) {
        None
    }
}

impl<'a> ProvideUnit for &'a Field {
    open spec fn unit_field(&self, tag: Tag, ifd_num: In) -> Option<ValueView> {
        if self.tag == tag && self.ifd_num == ifd_num {
            Some(self.value@)
        } else {
            None
        }
    }

    fn get_field(&self, tag: Tag, ifd_num: In) -> (r: Option<Field>) {
        if self.tag == tag && self.ifd_num == ifd_num {
            Some(self.copied())
        } else {
            None
        }
    }
}

impl<'a> ProvideUnit for &'a Exif {
    open spec fn unit_field(&self, tag: Tag, ifd_num: In) -> Option<ValueView> {
        match lookup(self.fields_spec(), tag, ifd_num) {
            Some(f) => Some(f.value),
            None => None,
        }
    }

    fn get_field(&self, tag: Tag, ifd_num: In) -> (r: Option<Field>) {
        let r = Exif::get_field(self, tag, ifd_num);
        proof {
            crate::exif::lemma_lookup_matches(self.fields_spec(), tag, ifd_num);
        }
        r
    }
}

/// The text of one piece of a unit template.
pub open spec fn piece_text<P: ProvideUnit>(
    piece: UnitPiece,
    value_text: Seq<char>,
    ifd_num: In,
    p: P,
) -> Seq<char> {
    match piece {
        UnitPiece::Value => value_text,
        UnitPiece::Str(s) => s@,
        UnitPiece::Tag(t) => match p.unit_field(t, ifd_num) {
            Some(v) => render_value(t, v),
            None => match default_of(t) {
                Some(v) => render_value(t, v),
                None => seq!['['] + tag_name(t) + " missing]"@,
            },
        },
    }
}

/// The text of a unit template.
pub open spec fn unit_text<P: ProvideUnit>(
    pieces: Seq<UnitPiece>,
    value_text: Seq<char>,
    ifd_num: In,
    p: P,
) -> Seq<char>
    decreases pieces.len(),
{
    if pieces.len() == 0 {
        Seq::empty()
    } else {
        unit_text(pieces.drop_last(), value_text, ifd_num, p) + piece_text(
            pieces.last(),
            value_text,
            ifd_num,
            p,
        )
    }
}

/// The text of a value with its unit: the unit template of the tag, or
/// the value alone when the tag has none.
pub open spec fn render_with_unit<P: ProvideUnit>(tag: Tag, ifd_num: In, v: ValueView, p: P) -> Seq<
    char,
> {
    match unit_of(tag) {
        Some(pieces) => unit_text(pieces, render_value(tag, v), ifd_num, p),
        None => render_value(tag, v),
    }
}

fn default_value(t: Tag) -> (r: Option<Value>)
    ensures
        match default_of(t) {
            Some(v) => r is Some && r->Some_0@ == v,
            None => r is None,
        },
{
    match t.info() {
        Some(i) => match i.default {
            Some(DefaultValue::Short(n)) => {
                let r = Value::Short(vec![n]);
                assert(r@ == ValueView::Short(seq![n])) by {
                    if let Value::Short(x) = r {
                        assert(x@ =~= seq![n]);
                    }
                }
                Some(r)
            },
            Some(DefaultValue::Byte(n)) => {
                let r = Value::Byte(vec![n]);
                assert(r@ == ValueView::Byte(seq![n])) by {
                    if let Value::Byte(x) = r {
                        assert(x@ =~= seq![n]);
                    }
                }
                Some(r)
            },
            None => None,
        },
        None => None,
    }
}

/// A value prepared for printing in a tag-specific format.
pub struct DisplayValue {
    tag: Tag,
    ifd_num: In,
    value: Value,
}

impl DisplayValue {
    /// The tag of the value.
    pub closed spec fn tag_spec(&self) -> Tag {
        self.tag
    }

    /// The IFD number of the value.
    pub closed spec fn ifd_spec(&self) -> In {
        self.ifd_num
    }

    /// The value.
    pub closed spec fn value_spec(&self) -> ValueView {
        self.value@
    }

    /// Returns the value in the format of its tag, without a unit.
    pub fn to_string(&self) -> (r: String)
        ensures
            r@ == render_value(self.tag_spec(), self.value_spec()),
    {
        render(self.tag, &self.value)
    }

    /// Returns the value with its unit.  The unit may name another field
    /// of the same IFD; `unit_provider` supplies it: `()`, a `&Field` or
    /// an `&Exif`.  When it has no such field, the default value of that
    /// field is used, or a "[... missing]" marker if there is none.
    pub fn with_unit<T: ProvideUnit>(&self, unit_provider: T) -> (r: DisplayValueUnit)
        ensures
            r.text_spec() == render_with_unit(
                self.tag_spec(),
                self.ifd_spec(),
                self.value_spec(),
                unit_provider,
            ),
    {
        let value_text = render(self.tag, &self.value);
        let unit = match self.tag.info() {
            Some(i) => i.unit,
            None => None,
        };
        match unit {
            None => DisplayValueUnit { text: value_text },
            Some(u) => {
                let pieces = unit_pieces_of(u);
                let mut text = String::new();
                let mut i: usize = 0;
                assert(pieces@.subrange(0, 0) =~= Seq::<UnitPiece>::empty());
                while i < pieces.len()
                    invariant
                        i <= pieces@.len(),
                        text@ == unit_text(
                            pieces@.subrange(0, i as int),
                            value_text@,
                            self.ifd_num,
                            unit_provider,
                        ),
                    decreases pieces@.len() - i,
                {
                    let ghost prev = text@;
                    match pieces[i] {
                        UnitPiece::Value => push_str(&mut text, value_text.as_str()),
                        UnitPiece::Str(s) => push_str(&mut text, s),
                        UnitPiece::Tag(t) => match unit_provider.get_field(t, self.ifd_num) {
                            Some(f) => {
                                let x = render(t, &f.value);
                                push_str(&mut text, x.as_str());
                            },
                            None => match default_value(t) {
                                Some(v) => {
                                    let x = render(t, &v);
                                    push_str(&mut text, x.as_str());
                                },
                                None => {
                                    push_char(&mut text, '[');
                                    let name = match t.info() {
                                        Some(info) => info.name,
                                        None => "unknown tag",
                                    };
                                    push_str(&mut text, name);
                                    push_str(&mut text, " missing]");
                                    assert(text@ =~= prev + (seq!['['] + tag_name(t)
                                        + " missing]"@));
                                },
                            },
                        },
                    }
                    proof {
                        let cur = pieces@.subrange(0, i + 1);
                        assert(cur.drop_last() =~= pieces@.subrange(0, i as int));
                        assert(text@ =~= prev + piece_text(
                            pieces@[i as int],
                            value_text@,
                            self.ifd_num,
                            unit_provider,
                        ));
                    }
                    i += 1;
                }
                assert(pieces@.subrange(0, i as int) =~= pieces@);
                DisplayValueUnit { text }
            },
        }
    }
}

/// A value with its unit, prepared for printing.
pub struct DisplayValueUnit {
    text: String,
}

impl DisplayValueUnit {
    /// The text.
    pub closed spec fn text_spec(&self) -> Seq<char> {
        self.text@
    }

    /// Returns the value with its unit.
    pub fn to_string(&self) -> (r: String)
        ensures
            r@ == self.text_spec(),
    {
        self.text.clone()
    }
}

impl Field {
    /// Returns the value of this field prepared for printing in the format
    /// of its tag.  Call `with_unit` on the result to add the unit.
    pub fn display_value(&self) -> (r: DisplayValue)
        ensures
            r.tag_spec() == self.tag,
            r.ifd_spec() == self.ifd_num,
            r.value_spec() == self.value@,
    {
        DisplayValue { tag: self.tag, ifd_num: self.ifd_num, value: self.value.copied() }
    }
}

} // verus!
