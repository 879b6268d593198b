use vstd::prelude::*;

use crate::tag::Tag;
use crate::value::{decode_spec, decode_value, get_type_info, unit_size, Value, ValueView};
use crate::MutOnce;
use crate::error::Error;
use crate::text::{dec, push_char, push_str, push_uint, push_uint_padded, zero_pad};
use crate::util::{all_digits, atou16, ctou32, digits_value, is_digit, lemma_digits_bound, pow10};

verus! {

/// The index of an image file directory (IFD).
///
/// The 0th IFD is for the primary image and the 1st one for the thumbnail.
#[derive(Debug, Clone, Copy, PartialEq, Eq, Structural, PartialOrd, Ord, Hash)]
pub struct In(pub u16);

impl In {
    /// The directory of the primary image.
    #[allow(non_snake_case)]
    pub fn PRIMARY() -> (r: In)
        ensures
            r == In(0),
    {
        In(0)
    }

    /// The directory of the thumbnail image.
    #[allow(non_snake_case)]
    pub fn THUMBNAIL() -> (r: In)
        ensures
            r == In(1),
    {
        In(1)
    }

    /// Returns the IFD number.
    pub fn index(self) -> (r: u16)
        ensures
            r == self.0,
    {
        self.0
    }

    /// Returns "primary", "thumbnail", or "IFD" and the number.
    pub fn to_string(&self) -> (r: String)
        ensures
            r@ == if self.0 == 0 {
                "primary"@
            } else if self.0 == 1 {
                "thumbnail"@
            } else {
                "IFD"@ + dec(self.0 as nat)
            },
    {
        let mut s = String::new();
        if self.0 == 0 {
            push_str(&mut s, "primary");
        } else if self.0 == 1 {
            push_str(&mut s, "thumbnail");
        } else {
            push_str(&mut s, "IFD");
            push_uint(&mut s, self.0 as u64);
        }
        assert(s@ =~= if self.0 == 0 {
            "primary"@
        } else if self.0 == 1 {
            "thumbnail"@
        } else {
            "IFD"@ + dec(self.0 as nat)
        });
        s
    }
}

/// A TIFF/Exif field.
#[derive(Debug, Clone, PartialEq)]
pub struct Field {
    /// The tag of this field.
    pub tag: Tag,
    /// The index of the IFD to which this field belongs.
    pub ifd_num: In,
    /// The value of this field.
    pub value: Value,
}

/// The mathematical content of a `Field`.
pub struct FieldView {
    pub tag: Tag,
    pub ifd_num: In,
    pub value: ValueView,
}

impl View for Field {
    type V = FieldView;

    open spec fn view(&self) -> FieldView {
        FieldView { tag: self.tag, ifd_num: self.ifd_num, value: self.value@ }
    }
}

impl Field {
    /// Returns a copy of this field.
    pub fn copied(&self) -> (r: Field)
        ensures
            r@ == self@,
    {
        Field { tag: self.tag, ifd_num: self.ifd_num, value: self.value.copied() }
    }
}

/// Whether a placeholder value can be decoded from `d` without reading
/// out of bounds.
pub open spec fn placeholder_in_bounds(d: Seq<u8>, v: ValueView) -> bool {
    match v {
        ValueView::Unknown(typ, cnt, ofs) => unit_size(typ) == 0 || ofs + unit_size(typ) * cnt
            <= d.len(),
        _ => true,
    }
}

/// The final value of a field whose value may still be a placeholder:
/// a placeholder of a supported type is decoded; any other value stays.
pub open spec fn resolve_spec(le: bool, d: Seq<u8>, v: ValueView) -> ValueView {
    match v {
        ValueView::Unknown(typ, cnt, ofs) => if unit_size(typ) != 0 {
            decode_spec(le, typ, d, ofs as int, cnt as int)
        } else {
            v
        },
        _ => v,
    }
}

/// Whether a value is final: not a placeholder that could still be decoded.
pub open spec fn is_final(v: ValueView) -> bool {
    match v {
        ValueView::Unknown(typ, _, _) => unit_size(typ) == 0,
        _ => true,
    }
}

/// A resolved value is final, and resolving a final value keeps it.
pub proof fn lemma_resolve_final(le: bool, d: Seq<u8>, v: ValueView)
    ensures
        is_final(resolve_spec(le, d, v)),
        is_final(v) ==> resolve_spec(le, d, v) == v,
{
}

/// The field with its value resolved.
pub open spec fn resolve_field(le: bool, d: Seq<u8>, f: FieldView) -> FieldView {
    FieldView { tag: f.tag, ifd_num: f.ifd_num, value: resolve_spec(le, d, f.value) }
}

/// A TIFF field whose value may still be a placeholder (`Value::Unknown`
/// holding the type, the count and the offset of the value).
#[derive(Debug)]
pub struct IfdEntry {
    pub field: MutOnce<Field>,
}

impl IfdEntry {
    /// The field, still unresolved.
    pub open spec fn raw(&self) -> FieldView {
        self.field.value()@
    }

    /// Whether the entry can be resolved against `d` without reading out
    /// of bounds, and a fixed entry is resolved.
    pub open spec fn wf(&self, d: Seq<u8>) -> bool {
        &&& placeholder_in_bounds(d, self.raw().value)
        &&& self.field.fixed() ==> is_final(self.raw().value)
    }

    /// The field with its final value.
    pub open spec fn resolved(&self, le: bool, d: Seq<u8>) -> FieldView {
        resolve_field(le, d, self.raw())
    }

    /// Returns the IFD number and the tag of the entry.
    pub fn ifd_num_tag(&self) -> (r: (In, Tag))
        ensures
            r == (self.raw().ifd_num, self.raw().tag),
    {
        let field = self.field.peek();
        (field.ifd_num, field.tag)
    }

    /// Resolves the value and borrows the field.
    pub fn ref_field(&mut self, data: &[u8], le: bool) -> (r: &Field)
        requires
            old(self).wf(data@),
        ensures
            r@ == old(self).resolved(le, data@),
            final(self).wf(data@),
            final(self).resolved(le, data@) == old(self).resolved(le, data@),
            final(self).field.fixed(),
    {
        self.parse(data, le);
        self.field.get_ref()
    }

    /// Resolves the value and returns the field.
    pub fn into_field(self, data: &[u8], le: bool) -> (r: Field)
        requires
            self.wf(data@),
        ensures
            r@ == self.resolved(le, data@),
    {
        let mut entry = self;
        entry.parse(data, le);
        entry.field.into_inner()
    }

    /// Returns a copy of the field with its value resolved, leaving the
    /// entry as it is.
    pub fn resolved_copy(&self, data: &[u8], le: bool) -> (r: Field)
        requires
            self.wf(data@),
        ensures
            r@ == self.resolved(le, data@),
    {
        let f = self.field.peek();
        let mut value = f.value.copied();
        if !self.field.is_fixed() {
            Self::parse_value(&mut value, data, le);
        }
        Field { tag: f.tag, ifd_num: f.ifd_num, value }
    }

    fn parse(&mut self, data: &[u8], le: bool)
        requires
            old(self).wf(data@),
        ensures
            final(self).wf(data@),
            final(self).raw() == old(self).resolved(le, data@),
            final(self).resolved(le, data@) == old(self).resolved(le, data@),
            final(self).field.fixed() == old(self).field.fixed(),
    {
        if !self.field.is_fixed() {
            let field = self.field.get_mut();
            Self::parse_value(&mut field.value, data, le);
        }
    }

    /// Converts a placeholder value into the real one.
    pub fn parse_value(value: &mut Value, data: &[u8], le: bool)
        requires
            placeholder_in_bounds(data@, old(value)@),
        ensures
            final(value)@ == resolve_spec(le, data@, old(value)@),
    {
        match *value {
            Value::Unknown(typ, cnt, ofs) => {
                let unitlen = get_type_info(typ);
                if unitlen != 0 {
                    *value = decode_value(le, typ, data, ofs as usize, cnt as usize);
                }
            },
            _ => {},
        }
    }
}

/// A date and time parsed from a DateTime-like field.
#[derive(Debug)]
pub struct DateTime {
    pub year: u16,
    pub month: u8,
    pub day: u8,
    pub hour: u8,
    pub minute: u8,
    pub second: u8,
    /// The subsecond data in nanoseconds.  If the Exif attribute has
    /// more significant digits, they are rounded down.
    pub nanosecond: Option<u32>,
    /// The offset of the time zone in minutes.
    pub offset: Option<i16>,
}

/// Whether `i` is a colon position of a DateTime value.
pub open spec fn dt_colon(i: int) -> bool {
    i == 4 || i == 7 || i == 13 || i == 16
}

/// Whether `d` is nineteen bytes, all spaces but `c` at the colon positions.
pub open spec fn dt_pattern(d: Seq<u8>, c: u8) -> bool {
    d.len() == 19 && forall|i: int| 0 <= i < 19 ==> #[trigger] d[i] == if dt_colon(i) {
        c
    } else {
        0x20u8
    }
}

/// `"    :  :     :  :  "` or nineteen spaces.
pub open spec fn dt_blank(d: Seq<u8>) -> bool {
    dt_pattern(d, 0x3a) || dt_pattern(d, 0x20)
}

/// Whether `d` is six bytes, all spaces but `c` at position 3.
pub open spec fn ofs_pattern(d: Seq<u8>, c: u8) -> bool {
    d.len() == 6 && forall|i: int| 0 <= i < 6 ==> #[trigger] d[i] == if i == 3 {
        c
    } else {
        0x20u8
    }
}

/// The number spelt by `d[a..b]`.
pub open spec fn num_at(d: Seq<u8>, a: int, b: int) -> nat {
    digits_value(d.subrange(a, b))
}

/// The result of parsing a DateTime value.
pub open spec fn datetime_spec(d: Seq<u8>) -> Result<DateTime, Error> {
    if dt_blank(d) {
        Err(Error::BlankValue("DateTime is blank"))
    } else if d.len() < 19 {
        Err(Error::InvalidFormat("DateTime too short"))
    } else if !(d[4] == 0x3a && d[7] == 0x3a && d[10] == 0x20 && d[13] == 0x3a && d[16] == 0x3a) {
        Err(Error::InvalidFormat("Invalid DateTime delimiter"))
    } else if !(all_digits(d.subrange(0, 4)) && all_digits(d.subrange(5, 7)) && all_digits(
        d.subrange(8, 10),
    ) && all_digits(d.subrange(11, 13)) && all_digits(d.subrange(14, 16)) && all_digits(
        d.subrange(17, 19),
    )) {
        Err(Error::InvalidFormat("Not a number"))
    } else {
        Ok(
            DateTime {
                year: num_at(d, 0, 4) as u16,
                month: num_at(d, 5, 7) as u8,
                day: num_at(d, 8, 10) as u8,
                hour: num_at(d, 11, 13) as u8,
                minute: num_at(d, 14, 16) as u8,
                second: num_at(d, 17, 19) as u8,
                nanosecond: None,
                offset: None,
            },
        )
    }
}

/// The position of the first space at or after `i`, or the length.
pub open spec fn space_from(d: Seq<u8>, i: int) -> int
    decreases d.len() - i,
{
    if i >= d.len() {
        d.len() as int
    } else if d[i] == 0x20 {
        i
    } else {
        space_from(d, i + 1)
    }
}

/// The digits that a subsecond value is read from: those before the
/// first space, nine at most.
pub open spec fn subsec_digits(d: Seq<u8>) -> Seq<u8> {
    let k = space_from(d, 0);
    d.subrange(0, if k < 9 { k } else { 9 })
}

/// The result of parsing a subsecond value: the nanoseconds, or `None`
/// when there is no digit.
pub open spec fn subsec_spec(d: Seq<u8>) -> Result<Option<u32>, Error> {
    let s = subsec_digits(d);
    if !all_digits(s) {
        Err(Error::InvalidFormat("Not a number"))
    } else if s.len() == 0 {
        Ok(None)
    } else {
        Ok(Some((digits_value(s) * pow10((9 - s.len()) as nat)) as u32))
    }
}

/// The result of parsing an OffsetTime value: the offset in minutes.
pub open spec fn offset_spec(d: Seq<u8>) -> Result<i16, Error> {
    if ofs_pattern(d, 0x3a) || ofs_pattern(d, 0x20) {
        Err(Error::BlankValue("OffsetTime is blank"))
    } else if d.len() < 6 {
        Err(Error::InvalidFormat("OffsetTime too short"))
    } else if d[3] != 0x3a {
        Err(Error::InvalidFormat("Invalid OffsetTime delimiter"))
    } else if !(all_digits(d.subrange(1, 3)) && all_digits(d.subrange(4, 6))) {
        Err(Error::InvalidFormat("Not a number"))
    } else {
        let v = num_at(d, 1, 3) * 60 + num_at(d, 4, 6);
        if d[0] == 0x2b {
            Ok(v as i16)
        } else if d[0] == 0x2d {
            Ok((-v) as i16)
        } else {
            Err(Error::InvalidFormat("Invalid OffsetTime sign"))
        }
    }
}

fn matches_dt_pattern(data: &[u8], c: u8) -> (r: bool)
    ensures
        r == dt_pattern(data@, c),
{
    if data.len() != 19 {
        return false;
    }
    let mut i: usize = 0;
    while i < 19
        invariant
            i <= 19 == data@.len(),
            forall|j: int| 0 <= j < i ==> #[trigger] data@[j] == if dt_colon(j) {
                c
            } else {
                0x20u8
            },
        decreases 19 - i,
    {
        let expect = if i == 4 || i == 7 || i == 13 || i == 16 {
            c
        } else {
            0x20u8
        };
        if data[i] != expect {
            return false;
        }
        i += 1;
    }
    true
}

fn matches_ofs_pattern(data: &[u8], c: u8) -> (r: bool)
    ensures
        r == ofs_pattern(data@, c),
{
    if data.len() != 6 {
        return false;
    }
    let mut i: usize = 0;
    while i < 6
        invariant
            i <= 6 == data@.len(),
            forall|j: int| 0 <= j < i ==> #[trigger] data@[j] == if j == 3 {
                c
            } else {
                0x20u8
            },
        decreases 6 - i,
    {
        let expect = if i == 3 {
            c
        } else {
            0x20u8
        };
        if data[i] != expect {
            return false;
        }
        i += 1;
    }
    true
}

impl DateTime {
    /// Parses the ASCII data of a DateTime field.  The range of a number
    /// is not validated, so, for example, 13 may be returned as the month.
    ///
    /// If the value is blank, `Error::BlankValue` is returned.
    pub fn from_ascii(data: &[u8]) -> (r: Result<DateTime, Error>)
        ensures
            r == datetime_spec(data@),
    {
        if matches_dt_pattern(data, 0x3a) || matches_dt_pattern(data, 0x20) {
            return Err(Error::BlankValue("DateTime is blank"));
        } else if data.len() < 19 {
            return Err(Error::InvalidFormat("DateTime too short"));
        } else if !(data[4] == 0x3a && data[7] == 0x3a && data[10] == 0x20 && data[13] == 0x3a
            && data[16] == 0x3a) {
            return Err(Error::InvalidFormat("Invalid DateTime delimiter"));
        }
        let year = match atou16(data, 0, 4) { Ok(v) => v, Err(e) => return Err(e) };
        let month = match atou16(data, 5, 7) { Ok(v) => v, Err(e) => return Err(e) };
        let day = match atou16(data, 8, 10) { Ok(v) => v, Err(e) => return Err(e) };
        let hour = match atou16(data, 11, 13) { Ok(v) => v, Err(e) => return Err(e) };
        let minute = match atou16(data, 14, 16) { Ok(v) => v, Err(e) => return Err(e) };
        let second = match atou16(data, 17, 19) { Ok(v) => v, Err(e) => return Err(e) };
        proof {
            reveal_with_fuel(pow10, 3);
        }
        Ok(
            DateTime {
                year,
                month: month as u8,
                day: day as u8,
                hour: hour as u8,
                minute: minute as u8,
                second: second as u8,
                nanosecond: None,
                offset: None,
            },
        )
    }

    /// Parses a SubsecTime-like field: the digits before the first space,
    /// nine at most, are the leading digits of the nanoseconds.
    pub fn parse_subsec(&mut self, data: &[u8]) -> (r: Result<(), Error>)
        ensures
            match subsec_spec(data@) {
                Ok(ns) => r is Ok && final(self).nanosecond == ns,
                Err(e) => r == Err::<(), Error>(e) && final(self).nanosecond == old(
                    self,
                ).nanosecond,
            },
            final(self).year == old(self).year,
            final(self).month == old(self).month,
            final(self).day == old(self).day,
            final(self).hour == old(self).hour,
            final(self).minute == old(self).minute,
            final(self).second == old(self).second,
            final(self).offset == old(self).offset,
    {
        let ghost d = data@;
        let mut subsec: u32 = 0;
        let mut ndigits: usize = 0;
        while ndigits < data.len() && ndigits < 9 && data[ndigits] != 0x20
            invariant
                ndigits <= data@.len(),
                ndigits <= 9,
                d == data@,
                forall|j: int| 0 <= j < ndigits ==> #[trigger] d[j] != 0x20,
                all_digits(d.subrange(0, ndigits as int)),
                subsec == digits_value(d.subrange(0, ndigits as int)),
                subsec < pow10(ndigits as nat),
                ndigits == 9 ==> space_from(d, 0) >= 9,
            decreases data@.len() - ndigits,
        {
            let c = data[ndigits];
            let v = match ctou32(c) {
                Ok(v) => v,
                Err(e) => {
                    proof {
                        lemma_space_from_ge(d, 0, ndigits as int + 1);
                        lemma_space_from_lower(d, 0);
                        assert(subsec_digits(d)[ndigits as int] == c);
                    }
                    return Err(e);
                },
            };
            let ghost prev = d.subrange(0, ndigits as int);
            let ghost next = d.subrange(0, ndigits + 1);
            assert(next.drop_last() =~= prev);
            assert(pow10(ndigits as nat) <= 100_000_000) by {
                lemma_pow10_mono(ndigits as nat, 8);
                reveal_with_fuel(pow10, 9);
            }
            subsec = subsec * 10 + v;
            ndigits += 1;
            proof {
                assert forall|j: int| 0 <= j < next.len() implies is_digit(#[trigger] next[j]) by {
                    if j < prev.len() {
                        assert(next[j] == prev[j]);
                    }
                }
                lemma_digits_bound(next);
                if ndigits == 9 {
                    lemma_space_from_ge(d, 0, 9);
                }
            }
        }
        proof {
            if ndigits < 9 {
                lemma_space_from_exact(d, 0, ndigits as int);
            }
            assert(subsec_digits(d) =~= d.subrange(0, ndigits as int));
        }
        if ndigits == 0 {
            self.nanosecond = None;
        } else {
            let ghost v0 = subsec as nat;
            let mut k: usize = ndigits;
            assert(pow10(0) == 1);
            assert(v0 * 1 == v0);
            while k < 9
                invariant
                    ndigits <= k <= 9,
                    subsec as nat == v0 * pow10((k - ndigits) as nat),
                    subsec < pow10(k as nat),
                decreases 9 - k,
            {
                assert(pow10(k as nat) <= 100_000_000) by {
                    lemma_pow10_mono(k as nat, 8);
                    reveal_with_fuel(pow10, 9);
                }
                subsec = subsec * 10;
                k += 1;
                proof {
                    lemma_pow10_succ((k - 1 - ndigits) as nat);
                    assert(v0 * pow10((k - ndigits) as nat) == v0 * (10 * pow10((k - 1 - ndigits) as nat)));
                    assert(v0 * (10 * pow10((k - 1 - ndigits) as nat)) == 10 * (v0 * pow10((k - 1 - ndigits) as nat))) by (nonlinear_arith);
                }
            }
            self.nanosecond = Some(subsec);
        }
        Ok(())
    }

    /// Parses an OffsetTime-like field: `+HH:MM` or `-HH:MM`, in minutes.
    pub fn parse_offset(&mut self, data: &[u8]) -> (r: Result<(), Error>)
        ensures
            match offset_spec(data@) {
                Ok(m) => r is Ok && final(self).offset == Some(m),
                Err(e) => r == Err::<(), Error>(e) && final(self).offset == old(self).offset,
            },
            final(self).year == old(self).year,
            final(self).month == old(self).month,
            final(self).day == old(self).day,
            final(self).hour == old(self).hour,
            final(self).minute == old(self).minute,
            final(self).second == old(self).second,
            final(self).nanosecond == old(self).nanosecond,
    {
        if matches_ofs_pattern(data, 0x3a) || matches_ofs_pattern(data, 0x20) {
            return Err(Error::BlankValue("OffsetTime is blank"));
        } else if data.len() < 6 {
            return Err(Error::InvalidFormat("OffsetTime too short"));
        } else if data[3] != 0x3a {
            return Err(Error::InvalidFormat("Invalid OffsetTime delimiter"));
        }
        let hour = match atou16(data, 1, 3) { Ok(v) => v, Err(e) => return Err(e) };
        let min = match atou16(data, 4, 6) { Ok(v) => v, Err(e) => return Err(e) };
        proof {
            reveal_with_fuel(pow10, 3);
        }
        let offset = (hour * 60 + min) as i16;
        if data[0] == 0x2b {
            self.offset = Some(offset);
        } else if data[0] == 0x2d {
            self.offset = Some(-offset);
        } else {
            return Err(Error::InvalidFormat("Invalid OffsetTime sign"));
        }
        Ok(())
    }

    /// Renders the date and time as `YYYY-MM-DD HH:MM:SS`.
    pub fn to_string(&self) -> (r: String)
        ensures
            r@ == zero_pad(dec(self.year as nat), 4) + seq!['-'] + zero_pad(dec(self.month as nat), 2)
                + seq!['-'] + zero_pad(dec(self.day as nat), 2) + seq![' '] + zero_pad(
                dec(self.hour as nat),
                2,
            ) + seq![':'] + zero_pad(dec(self.minute as nat), 2) + seq![':'] + zero_pad(
                dec(self.second as nat),
                2,
            ),
    {
        let mut s = String::new();
        push_uint_padded(&mut s, self.year as u64, 4);
        push_char(&mut s, '-');
        push_uint_padded(&mut s, self.month as u64, 2);
        push_char(&mut s, '-');
        push_uint_padded(&mut s, self.day as u64, 2);
        push_char(&mut s, ' ');
        push_uint_padded(&mut s, self.hour as u64, 2);
        push_char(&mut s, ':');
        push_uint_padded(&mut s, self.minute as u64, 2);
        push_char(&mut s, ':');
        push_uint_padded(&mut s, self.second as u64, 2);
        s
    }
}

proof fn lemma_space_from_ge(d: Seq<u8>, k: int, i: int)
    requires
        0 <= k <= i <= d.len(),
        forall|j: int| k <= j < i ==> #[trigger] d[j] != 0x20,
    ensures
        space_from(d, k) >= i,
    decreases i - k,
{
    if k < i {
        assert(d[k] != 0x20);
        lemma_space_from_ge(d, k + 1, i);
    } else {
        lemma_space_from_lower(d, k);
    }
}

proof fn lemma_space_from_lower(d: Seq<u8>, k: int)
    requires
        0 <= k <= d.len(),
    ensures
        k <= space_from(d, k) <= d.len(),
    decreases d.len() - k,
{
    if k < d.len() && d[k] != 0x20 {
        lemma_space_from_lower(d, k + 1);
    }
}

proof fn lemma_space_from_exact(d: Seq<u8>, k: int, i: int)
    requires
        0 <= k <= i <= d.len(),
        forall|j: int| k <= j < i ==> #[trigger] d[j] != 0x20,
        i == d.len() || d[i] == 0x20,
    ensures
        space_from(d, k) == i,
    decreases i - k,
{
    if k < i {
        assert(d[k] != 0x20);
        lemma_space_from_exact(d, k + 1, i);
    }
}

proof fn lemma_pow10_succ(n: nat)
    ensures
        pow10(n + 1) == 10 * pow10(n),
{
}

proof fn lemma_pow10_mono(a: nat, b: nat)
    requires
        a <= b,
    ensures
        pow10(a) <= pow10(b),
    decreases b - a,
{
    if a < b {
        lemma_pow10_mono(a, (b - 1) as nat);
        lemma_pow10_succ((b - 1) as nat);
    }
}

} // verus!
