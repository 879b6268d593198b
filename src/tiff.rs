use vstd::prelude::*;

use crate::endian::{load_u16, load_u32, spec_u16, spec_u32};
use crate::error::Error;
use crate::ifd::{
    placeholder_in_bounds, resolve_field, resolve_spec, Field, FieldView, IfdEntry, In,
};
use crate::tag::{Context, Tag};
use crate::endian::spec_u64;
use crate::value::{
    decode_spec, get_type_info, lemma_decode_byte_order, lemma_group2, lemma_group4, reversed_groups,
    swap_width, uint_at, unit_size, Value, ValueView,
};
use crate::MutOnce;

verus! {

/// The byte-order mark of big-endian TIFF data ("MM").
pub const TIFF_BE: u16 = 0x4d4d;

/// The byte-order mark of little-endian TIFF data ("II").
pub const TIFF_LE: u16 = 0x4949;

/// The fixed number that follows the byte-order mark.
pub const TIFF_FORTY_TWO: u16 = 0x002a;

/// The number of chained top-level directories that a decode accepts.
pub const MAX_IFDS: u16 = 8;

/// The context of the sub-directory that a pointer tag leads to.
pub open spec fn child_context(t: Tag) -> Option<Context> {
    if t == Tag(Context::Tiff, 0x8769) {
        Some(Context::Exif)
    } else if t == Tag(Context::Tiff, 0x8825) {
        Some(Context::Gps)
    } else if t == Tag(Context::Exif, 0xa005) {
        Some(Context::Interop)
    } else {
        None
    }
}

/// How many levels of sub-directories a directory of the context can hold.
pub open spec fn depth(c: Context) -> nat {
    match c {
        Context::Tiff => 2,
        Context::Exif => 1,
        _ => 0,
    }
}

/// `Err` stays; `Ok(s)` becomes `Ok(a + s)`.
pub open spec fn prepend(a: Seq<FieldView>, r: Result<Seq<FieldView>, Error>) -> Result<
    Seq<FieldView>,
    Error,
> {
    match r {
        Ok(s) => Ok(a + s),
        Err(e) => Err(e),
    }
}

/// The tag number and the placeholder value of the 12-byte entry at `off`.
pub open spec fn entry_spec(le: bool, d: Seq<u8>, off: int) -> Result<(u16, ValueView), Error> {
    let tag = spec_u16(le, d, off);
    let typ = spec_u16(le, d, off + 2);
    let cnt = spec_u32(le, d, off + 4);
    let vallen = unit_size(typ) * cnt;
    if vallen <= 4 {
        if off + 8 > u32::MAX {
            Err(Error::InvalidFormat("Field value offset too large"))
        } else {
            Ok((tag, ValueView::Unknown(typ, cnt, (off + 8) as u32)))
        }
    } else {
        let ofs = spec_u32(le, d, off + 8);
        if d.len() < ofs || d.len() - ofs < vallen {
            Err(Error::InvalidFormat("Truncated field value"))
        } else {
            Ok((tag, ValueView::Unknown(typ, cnt, ofs)))
        }
    }
}

/// The fields of the directory at `off` and its offset to the next one.
pub open spec fn ifd_spec(le: bool, d: Seq<u8>, off: int, ctx: Context, n: u16) -> Result<
    (Seq<FieldView>, u32),
    Error,
>
    decreases depth(ctx), 2nat, 0int,
{
    if d.len() < off || d.len() - off < 2 {
        Err(Error::InvalidFormat("Truncated IFD count"))
    } else {
        let count = spec_u16(le, d, off) as int;
        if d.len() - off - 2 < count * 12 {
            Err(Error::InvalidFormat("Truncated IFD"))
        } else {
            match entries_spec(le, d, off, count, 0, ctx, n) {
                Err(e) => Err(e),
                Ok(es) => if d.len() - off - 2 - count * 12 < 4 {
                    Err(Error::InvalidFormat("Truncated next IFD offset"))
                } else {
                    Ok((es, spec_u32(le, d, off + 2 + count * 12)))
                },
            }
        }
    }
}

/// The fields that the entry at `off` contributes: its own field, or the
/// fields of the sub-directory that it points to.
pub open spec fn entry_fields(le: bool, d: Seq<u8>, off: int, ctx: Context, n: u16) -> Result<
    Seq<FieldView>,
    Error,
>
    decreases depth(ctx), 0nat, 0int,
{
    match entry_spec(le, d, off) {
        Err(e) => Err(e),
        Ok((num, val)) => {
            let tag = Tag(ctx, num);
            match child_context(tag) {
                Some(c) => child_spec(le, d, val, c, n),
                None => Ok(seq![FieldView { tag, ifd_num: In(n), value: val }]),
            }
        },
    }
}

/// The fields of the entries `i..count` of the directory at `off`.
pub open spec fn entries_spec(
    le: bool,
    d: Seq<u8>,
    off: int,
    count: int,
    i: int,
    ctx: Context,
    n: u16,
) -> Result<Seq<FieldView>, Error>
    decreases depth(ctx), 1nat, count - i,
{
    if i >= count {
        Ok(Seq::empty())
    } else {
        match entry_fields(le, d, off + 2 + i * 12, ctx, n) {
            Err(e) => Err(e),
            Ok(fs) => prepend(fs, entries_spec(le, d, off, count, i + 1, ctx, n)),
        }
    }
}

/// The fields of the sub-directory that the pointer value `ptr` leads to.
pub open spec fn child_spec(le: bool, d: Seq<u8>, ptr: ValueView, c: Context, n: u16) -> Result<
    Seq<FieldView>,
    Error,
>
    decreases depth(c), 3nat, 0int,
{
    match uint_at(resolve_spec(le, d, ptr), 0) {
        None => Err(Error::InvalidFormat("Invalid pointer")),
        Some(ofs) => match ifd_spec(le, d, ofs as int, c, n) {
            Err(e) => Err(e),
            Ok((es, next)) => if next == 0 {
                Ok(es)
            } else {
                Err(Error::InvalidFormat("Unexpected next IFD"))
            },
        },
    }
}

proof fn lemma_chain_step(le: bool, d: Seq<u8>, ofs: int, n: int)
    ensures
        chain_spec(le, d, ofs, n) == (if ofs == 0 {
            Ok(Seq::empty())
        } else if n >= 8 || n < 0 {
            Err(Error::InvalidFormat("Limit the IFD count to 8"))
        } else {
            match ifd_spec(le, d, ofs, Context::Tiff, n as u16) {
                Err(e) => Err(e),
                Ok((es, next)) => prepend(es, chain_spec(le, d, next as int, n + 1)),
            }
        }),
{
    reveal_with_fuel(chain_spec, 1);
}

/// The fields of the chain of top-level directories that starts at `ofs`,
/// the `n`-th directory first.
#[verifier::opaque]
pub open spec fn chain_spec(le: bool, d: Seq<u8>, ofs: int, n: int) -> Result<
    Seq<FieldView>,
    Error,
>
    decreases 8 - n,
{
    if ofs == 0 {
        Ok(Seq::empty())
    } else if n >= 8 || n < 0 {
        Err(Error::InvalidFormat("Limit the IFD count to 8"))
    } else {
        match ifd_spec(le, d, ofs, Context::Tiff, n as u16) {
            Err(e) => Err(e),
            Ok((es, next)) => prepend(es, chain_spec(le, d, next as int, n + 1)),
        }
    }
}

/// The fields of TIFF data in the byte order `le`, after the byte-order mark.
pub open spec fn tiff_body_spec(le: bool, d: Seq<u8>) -> Result<Seq<FieldView>, Error> {
    if spec_u16(le, d, 2) != 0x2a {
        Err(Error::InvalidFormat("Invalid forty two"))
    } else {
        chain_spec(le, d, spec_u32(le, d, 4) as int, 0)
    }
}

/// The unresolved fields of TIFF data and whether it is little endian.
pub open spec fn tiff_spec(d: Seq<u8>) -> Result<(Seq<FieldView>, bool), Error> {
    if d.len() < 8 {
        Err(Error::InvalidFormat("Truncated TIFF header"))
    } else {
        let bo = spec_u16(false, d, 0);
        if bo == 0x4d4d {
            match tiff_body_spec(false, d) {
                Ok(es) => Ok((es, false)),
                Err(e) => Err(e),
            }
        } else if bo == 0x4949 {
            match tiff_body_spec(true, d) {
                Ok(es) => Ok((es, true)),
                Err(e) => Err(e),
            }
        } else {
            Err(Error::InvalidFormat("Invalid TIFF byte order"))
        }
    }
}

/// The fields with their values resolved against `d`.
pub open spec fn resolve_fields(le: bool, d: Seq<u8>, es: Seq<FieldView>) -> Seq<FieldView> {
    es.map_values(|f: FieldView| resolve_field(le, d, f))
}

/// The decoded fields of TIFF data, each value resolved, and whether the
/// data is little endian.
pub open spec fn exif_spec(d: Seq<u8>) -> Result<(Seq<FieldView>, bool), Error> {
    match tiff_spec(d) {
        Ok((es, le)) => Ok((resolve_fields(le, d, es), le)),
        Err(e) => Err(e),
    }
}

/// The unresolved fields held by a sequence of entries.
pub open spec fn raw_fields(es: Seq<IfdEntry>) -> Seq<FieldView> {
    es.map_values(|e: IfdEntry| e.raw())
}

/// The fields of a sequence of fields.
pub open spec fn fields_view(fs: Seq<Field>) -> Seq<FieldView> {
    fs.map_values(|f: Field| f@)
}

/// Every entry is open and can be resolved against `d`.
pub open spec fn entries_wf(es: Seq<IfdEntry>, d: Seq<u8>) -> bool {
    forall|k: int| 0 <= k < es.len() ==> #[trigger] es[k].wf(d) && !es[k].field.fixed()
}

/// The state of a decode: the entries found so far and the byte order.
#[derive(Debug)]
pub struct Parser {
    pub entries: Vec<IfdEntry>,
    pub little_endian: bool,
}

impl Default for Parser {
    fn default() -> (r: Self)
        ensures
            r.entries@.len() == 0,
            !r.little_endian,
    {
        Parser { entries: Vec::new(), little_endian: false }
    }
}

/// A decoder of TIFF data.
pub trait Parse: Sized {
    /// Whether the decoder can start on new data.
    spec fn ready(&self) -> bool;

    /// What a call of `parse` on `data` leaves and returns.
    spec fn parsed(&self, after: &Self, data: Seq<u8>, r: Result<(), Error>) -> bool;

    /// Decodes `data`.
    fn parse(&mut self, data: &[u8]) -> (r: Result<(), Error>)
        requires
            old(self).ready(),
        ensures
            old(self).parsed(final(self), data@, r),
    ;
}

impl Parse for Parser {
    open spec fn ready(&self) -> bool {
        self.entries@.len() == 0
    }

    open spec fn parsed(&self, after: &Self, data: Seq<u8>, r: Result<(), Error>) -> bool {
        match tiff_spec(data) {
            Ok((es, le)) => {
                &&& r is Ok
                &&& after.little_endian == le
                &&& raw_fields(after.entries@) == es
                &&& entries_wf(after.entries@, data)
            },
            Err(e) => r == Err::<(), Error>(e),
        }
    }

    fn parse(&mut self, data: &[u8]) -> (r: Result<(), Error>) {
        // Check the byte order and call the real parser.
        if data.len() < 8 {
            return Err(Error::InvalidFormat("Truncated TIFF header"));
        }
        let bo = load_u16(false, data, 0);
        if bo == TIFF_BE {
            self.little_endian = false;
            self.parse_sub(data)
        } else if bo == TIFF_LE {
            self.little_endian = true;
            self.parse_sub(data)
        } else {
            Err(Error::InvalidFormat("Invalid TIFF byte order"))
        }
    }
}

/// Returns the context of the sub-directory that a pointer tag leads to.
pub fn child_ctx(t: Tag) -> (r: Option<Context>)
    ensures
        r == child_context(t),
{
    match (t.0, t.1) {
        (Context::Tiff, 0x8769) => Some(Context::Exif),
        (Context::Tiff, 0x8825) => Some(Context::Gps),
        (Context::Exif, 0xa005) => Some(Context::Interop),
        _ => None,
    }
}

impl Parser {
    fn parse_sub(&mut self, data: &[u8]) -> (r: Result<(), Error>)
        requires
            8 <= data@.len(),
            old(self).entries@.len() == 0,
        ensures
            final(self).little_endian == old(self).little_endian,
            entries_wf(final(self).entries@, data@),
            match tiff_body_spec(old(self).little_endian, data@) {
                Ok(es) => r is Ok && raw_fields(final(self).entries@) == es,
                Err(e) => r == Err::<(), Error>(e),
            },
    {
        let le = self.little_endian;
        let ghost d = data@;
        // Parse the rest of the header (42 and the IFD offset).
        if load_u16(le, data, 2) != TIFF_FORTY_TWO {
            return Err(Error::InvalidFormat("Invalid forty two"));
        }
        let mut ifd_offset = load_u32(le, data, 4) as usize;
        let ghost first = ifd_offset as int;
        let mut ifd_num: u16 = 0;
        let ghost mut done: Seq<FieldView> = Seq::empty();
        assert(raw_fields(self.entries@) =~= done);
        assert(prepend(done, chain_spec(le, d, first, 0)) =~= chain_spec(le, d, first, 0)) by {
            if let Ok(s) = chain_spec(le, d, first, 0) {
                assert(done + s =~= s);
            }
        }
        while ifd_offset != 0
            invariant
                ifd_num <= MAX_IFDS,
                data@ == d,
                spec_u16(le, d, 2) == 0x2a,
                first == spec_u32(le, d, 4),
                self.little_endian == le,
                le == old(self).little_endian,
                entries_wf(self.entries@, d),
                raw_fields(self.entries@) == done,
                prepend(done, chain_spec(le, d, ifd_offset as int, ifd_num as int)) == chain_spec(
                    le,
                    d,
                    first,
                    0,
                ),
            decreases MAX_IFDS - ifd_num,
        {
            // Limit the number of IFDs to defend against resource exhaustion
            // attacks.
            proof {
                lemma_chain_step(le, d, ifd_offset as int, ifd_num as int);
            }
            if ifd_num >= MAX_IFDS {
                assert(chain_spec(le, d, ifd_offset as int, ifd_num as int) == Err::<
                    Seq<FieldView>,
                    Error,
                >(Error::InvalidFormat("Limit the IFD count to 8")));
                return Err(Error::InvalidFormat("Limit the IFD count to 8"));
            }
            let ghost before = done;
            let next = match self.parse_ifd(data, ifd_offset, Context::Tiff, ifd_num) {
                Ok(next) => next,
                Err(e) => {
                    assert(chain_spec(le, d, ifd_offset as int, ifd_num as int) == Err::<
                        Seq<FieldView>,
                        Error,
                    >(e));
                    return Err(e);
                },
            };
            proof {
                let es = ifd_spec(le, d, ifd_offset as int, Context::Tiff, ifd_num)->Ok_0.0;
                done = before + es;
                if let Ok(s) = chain_spec(le, d, next as int, ifd_num + 1) {
                    assert(before + (es + s) =~= done + s);
                }
            }
            ifd_offset = next;
            ifd_num = ifd_num + 1;
        }
        proof {
            lemma_chain_step(le, d, ifd_offset as int, ifd_num as int);
        }
        assert(done + Seq::<FieldView>::empty() =~= done);
        Ok(())
    }

    #[verifier::rlimit(40)]
    fn parse_ifd(&mut self, data: &[u8], offset: usize, ctx: Context, ifd_num: u16) -> (r: Result<
        usize,
        Error,
    >)
        requires
            entries_wf(old(self).entries@, data@),
        ensures
            final(self).little_endian == old(self).little_endian,
            entries_wf(final(self).entries@, data@),
            match ifd_spec(old(self).little_endian, data@, offset as int, ctx, ifd_num) {
                Ok((es, next)) => r == Ok::<usize, Error>(next as usize) && raw_fields(
                    final(self).entries@,
                ) == raw_fields(old(self).entries@) + es,
                Err(e) => r == Err::<usize, Error>(e),
            },
        decreases depth(ctx), 2nat, 0int,
    {
        let le = self.little_endian;
        let ghost d = data@;
        // Count (the number of the entries).
        if data.len() < offset || data.len() - offset < 2 {
            return Err(Error::InvalidFormat("Truncated IFD count"));
        }
        let count = load_u16(le, data, offset) as usize;
        // Array of entries.  (count * 12) never overflows.
        if data.len() - offset - 2 < count * 12 {
            return Err(Error::InvalidFormat("Truncated IFD"));
        }
        let ghost old_raw = raw_fields(self.entries@);
        let ghost mut done: Seq<FieldView> = Seq::empty();
        assert(raw_fields(self.entries@) =~= old_raw + done);
        assert(prepend(done, entries_spec(le, d, offset as int, count as int, 0, ctx, ifd_num))
            =~= entries_spec(le, d, offset as int, count as int, 0, ctx, ifd_num)) by {
            if let Ok(s) = entries_spec(le, d, offset as int, count as int, 0, ctx, ifd_num) {
                assert(done + s =~= s);
            }
        }
        let mut i: usize = 0;
        while i < count
            invariant
                i <= count,
                data@ == d,
                d.len() <= usize::MAX,
                offset + 2 + count * 12 <= d.len(),
                count == spec_u16(le, d, offset as int),
                self.little_endian == le,
                le == old(self).little_endian,
                entries_wf(self.entries@, d),
                raw_fields(self.entries@) == old_raw + done,
                prepend(done, entries_spec(le, d, offset as int, count as int, i as int, ctx, ifd_num))
                    == entries_spec(le, d, offset as int, count as int, 0, ctx, ifd_num),
            decreases count - i,
        {
            let ghost before = done;
            match self.parse_entry(data, offset + 2 + i * 12, ctx, ifd_num) {
                Ok(()) => {},
                Err(e) => return Err(e),
            }
            proof {
                let fs = entry_fields(le, d, offset + 2 + i * 12, ctx, ifd_num)->Ok_0;
                done = before + fs;
                assert(raw_fields(self.entries@) =~= old_raw + done);
                if let Ok(s) = entries_spec(le, d, offset as int, count as int, i + 1, ctx, ifd_num) {
                    assert(before + (fs + s) =~= done + s);
                }
            }
            i += 1;
        }
        assert(done + Seq::<FieldView>::empty() =~= done);
        // Offset to the next IFD.
        if data.len() - offset - 2 - count * 12 < 4 {
            return Err(Error::InvalidFormat("Truncated next IFD offset"));
        }
        let next_ifd_offset = load_u32(le, data, offset + 2 + count * 12);
        Ok(next_ifd_offset as usize)
    }

    fn parse_entry(&mut self, data: &[u8], offset: usize, ctx: Context, ifd_num: u16) -> (r: Result<
        (),
        Error,
    >)
        requires
            offset + 12 <= data@.len(),
            entries_wf(old(self).entries@, data@),
        ensures
            final(self).little_endian == old(self).little_endian,
            entries_wf(final(self).entries@, data@),
            match entry_fields(old(self).little_endian, data@, offset as int, ctx, ifd_num) {
                Ok(fs) => r is Ok && raw_fields(final(self).entries@) == raw_fields(
                    old(self).entries@,
                ) + fs,
                Err(e) => r == Err::<(), Error>(e),
            },
        decreases depth(ctx), 0nat, 0int,
    {
        let le = self.little_endian;
        let (num, val) = match Self::parse_ifd_entry(le, data, offset) {
            Ok(x) => x,
            Err(e) => return Err(e),
        };
        // No infinite recursion will occur because the context is not
        // recursively defined.
        let tag = Tag(ctx, num);
        match child_ctx(tag) {
            Some(c) => self.parse_child_ifd(data, val, c, ifd_num),
            None => {
                let ghost f = FieldView { tag, ifd_num: In(ifd_num), value: val@ };
                let ghost prev = self.entries@;
                self.entries.push(
                    IfdEntry { field: MutOnce::new(Field { tag, ifd_num: In(ifd_num), value: val }) },
                );
                proof {
                    assert(raw_fields(self.entries@) =~= raw_fields(prev) + seq![f]);
                    assert forall|k: int| 0 <= k < self.entries@.len() implies #[trigger] self.entries@[k].wf(data@)
                        && !self.entries@[k].field.fixed() by {
                        if k < prev.len() {
                            assert(self.entries@[k] == prev[k]);
                        }
                    }
                }
                Ok(())
            },
        }
    }

    /// Decodes the 12-byte entry at `offset` into its tag number and a
    /// placeholder value holding the type, the count and the offset of the
    /// value.
    pub fn parse_ifd_entry(le: bool, data: &[u8], offset: usize) -> (r: Result<(u16, Value), Error>)
        requires
            offset + 12 <= data@.len(),
        ensures
            match entry_spec(le, data@, offset as int) {
                Ok((t, v)) => r is Ok && r->Ok_0.0 == t && r->Ok_0.1@ == v
                    && placeholder_in_bounds(data@, v),
                Err(e) => r == Err::<(u16, Value), Error>(e),
            },
    {
        let _len = data.len();
        let tag = load_u16(le, data, offset);
        let typ = load_u16(le, data, offset + 2);
        let cnt = load_u32(le, data, offset + 4);
        let valofs_at = offset + 8;
        let unitlen = get_type_info(typ);
        assert(unitlen as u64 * cnt as u64 <= 8 * 0xffff_ffff) by (nonlinear_arith)
            requires
                unitlen <= 8,
                cnt <= 0xffff_ffff,
        ;
        let vallen: u64 = unitlen as u64 * cnt as u64;
        if vallen <= 4 {
            // A value inside the entry is located by a 32-bit offset.
            if valofs_at > u32::MAX as usize {
                return Err(Error::InvalidFormat("Field value offset too large"));
            }
            Ok((tag, Value::Unknown(typ, cnt, valofs_at as u32)))
        } else {
            let ofs = load_u32(le, data, valofs_at) as usize;
            if data.len() < ofs || ((data.len() - ofs) as u64) < vallen {
                return Err(Error::InvalidFormat("Truncated field value"));
            }
            Ok((tag, Value::Unknown(typ, cnt, ofs as u32)))
        }
    }

    fn parse_child_ifd(&mut self, data: &[u8], pointer: Value, ctx: Context, ifd_num: u16) -> (r:
        Result<(), Error>)
        requires
            entries_wf(old(self).entries@, data@),
            placeholder_in_bounds(data@, pointer@),
        ensures
            final(self).little_endian == old(self).little_endian,
            entries_wf(final(self).entries@, data@),
            match child_spec(old(self).little_endian, data@, pointer@, ctx, ifd_num) {
                Ok(ces) => r is Ok && raw_fields(final(self).entries@) == raw_fields(
                    old(self).entries@,
                ) + ces,
                Err(e) => r == Err::<(), Error>(e),
            },
        decreases depth(ctx), 3nat, 0int,
    {
        // The pointer is not yet parsed, so do it here.
        let mut pointer = pointer;
        IfdEntry::parse_value(&mut pointer, data, self.little_endian);
        // A pointer field has type == LONG and count == 1, so the
        // value (IFD offset) must be embedded in the "value offset"
        // element of the field.
        let ofs = match pointer.get_uint(0) {
            Some(o) => o as usize,
            None => return Err(Error::InvalidFormat("Invalid pointer")),
        };
        match self.parse_ifd(data, ofs, ctx, ifd_num) {
            Ok(next) => if next == 0 {
                Ok(())
            } else {
                Err(Error::InvalidFormat("Unexpected next IFD"))
            },
            Err(e) => Err(e),
        }
    }
}

/// Parses the Exif attributes in the TIFF format.
///
/// Returns the fields, each value decoded, and true if the data is little
/// endian.
pub fn parse_exif(data: &[u8]) -> (r: Result<(Vec<Field>, bool), Error>)
    ensures
        match exif_spec(data@) {
            Ok((fs, le)) => r is Ok && fields_view(r->Ok_0.0@) == fs && r->Ok_0.1 == le,
            Err(e) => r == Err::<(Vec<Field>, bool), Error>(e),
        },
{
    let mut parser = Parser::default();
    match parser.parse(data) {
        Ok(()) => {},
        Err(e) => return Err(e),
    }
    let le = parser.little_endian;
    let ghost es = raw_fields(parser.entries@);
    let mut fields: Vec<Field> = Vec::new();
    let mut i: usize = 0;
    while i < parser.entries.len()
        invariant
            i <= parser.entries@.len(),
            es == raw_fields(parser.entries@),
            entries_wf(parser.entries@, data@),
            fields_view(fields@) == resolve_fields(le, data@, es.subrange(0, i as int)),
        decreases parser.entries@.len() - i,
    {
        assert(parser.entries@[i as int].wf(data@));
        let f = parser.entries[i].resolved_copy(data, le);
        let ghost prev = fields@;
        assert(fields_view(prev).len() == i);
        fields.push(f);
        proof {
            assert forall|j: int| 0 <= j < i + 1 implies #[trigger] fields_view(fields@)[j]
                == resolve_fields(le, data@, es.subrange(0, i + 1))[j] by {
                if j < i {
                    assert(fields@[j] == prev[j]);
                    assert(fields_view(prev)[j] == resolve_fields(le, data@, es.subrange(0, i as int))[j]);
                } else {
                    assert(es[j] == raw_fields(parser.entries@)[j]);
                }
            }
        }
        i += 1;
        assert(fields_view(fields@) =~= resolve_fields(le, data@, es.subrange(0, i as int)));
    }
    assert(es.subrange(0, i as int) =~= es);
    Ok((fields, le))
}

/// Whether the buffer starts with a TIFF signature.
pub open spec fn spec_is_tiff(buf: Seq<u8>) -> bool {
    buf.len() >= 4 && ((buf[0] == 0x4d && buf[1] == 0x4d && buf[2] == 0 && buf[3] == 0x2a) || (
    buf[0] == 0x49 && buf[1] == 0x49 && buf[2] == 0x2a && buf[3] == 0))
}

/// Returns true if the buffer starts with a big-endian or little-endian
/// TIFF signature.
pub fn is_tiff(buf: &[u8]) -> (r: bool)
    ensures
        r == spec_is_tiff(buf@),
{
    buf.len() >= 4 && ((buf[0] == 0x4d && buf[1] == 0x4d && buf[2] == 0 && buf[3] == 0x2a) || (
    buf[0] == 0x49 && buf[1] == 0x49 && buf[2] == 0x2a && buf[3] == 0))
}

/// `p` is a prefix of `d`.
pub open spec fn is_prefix(p: Seq<u8>, d: Seq<u8>) -> bool {
    p.len() <= d.len() && forall|i: int| 0 <= i < p.len() ==> p[i] == d[i]
}

/// Every placeholder can be decoded from `p`.
pub open spec fn all_in_bounds(p: Seq<u8>, fs: Seq<FieldView>) -> bool {
    forall|i: int| 0 <= i < fs.len() ==> placeholder_in_bounds(p, #[trigger] fs[i].value)
}

proof fn lemma_load_prefix(le: bool, p: Seq<u8>, d: Seq<u8>, o: int)
    requires
        is_prefix(p, d),
        0 <= o,
    ensures
        o + 2 <= p.len() ==> spec_u16(le, p, o) == spec_u16(le, d, o),
        o + 4 <= p.len() ==> spec_u32(le, p, o) == spec_u32(le, d, o),
        o + 8 <= p.len() ==> spec_u64(le, p, o) == spec_u64(le, d, o),
{
    if o + 2 <= p.len() {
        assert(p[o] == d[o] && p[o + 1] == d[o + 1]);
    }
    if o + 4 <= p.len() {
        assert(p[o + 2] == d[o + 2] && p[o + 3] == d[o + 3]);
    }
    if o + 8 <= p.len() {
        assert(p[o + 4] == d[o + 4] && p[o + 5] == d[o + 5]);
        assert(p[o + 6] == d[o + 6] && p[o + 7] == d[o + 7]);
    }
}

/// Decoding reads only inside the bounds it was checked against.
pub proof fn lemma_resolve_prefix(le: bool, p: Seq<u8>, d: Seq<u8>, v: ValueView)
    requires
        is_prefix(p, d),
        placeholder_in_bounds(p, v),
    ensures
        resolve_spec(le, p, v) == resolve_spec(le, d, v),
{
    if let ValueView::Unknown(typ, cnt, ofs) = v {
        if unit_size(typ) != 0 {
            let o = ofs as int;
            let c = cnt as int;
            let u = unit_size(typ) as int;
            assert(o + u * c <= p.len());
            assert(p.subrange(o, o + c) =~= d.subrange(o, o + c)) by {
                if u >= 1 {
                    assert(c <= u * c) by (nonlinear_arith)
                        requires
                            u >= 1,
                            c >= 0,
                    ;
                }
            }
            let a = decode_spec(le, typ, p, o, c);
            let b = decode_spec(le, typ, d, o, c);
            if typ == 3 {
                assert forall|i: int| 0 <= i < c implies #[trigger] a->Short_0[i] == b->Short_0[i] by {
                    assert(2 * i + 2 <= 2 * c);
                    lemma_load_prefix(le, p, d, o + 2 * i);
                    lemma_load_prefix(le, p, d, o + 2 * i + 4);
                }
                assert(a->Short_0 =~= b->Short_0);
            } else if typ == 4 {
                assert forall|i: int| 0 <= i < c implies #[trigger] a->Long_0[i] == b->Long_0[i] by {
                    assert(4 * i + 4 <= 4 * c);
                    lemma_load_prefix(le, p, d, o + 4 * i);
                    lemma_load_prefix(le, p, d, o + 4 * i + 4);
                }
                assert(a->Long_0 =~= b->Long_0);
            } else if typ == 5 {
                assert forall|i: int| 0 <= i < c implies #[trigger] a->Rational_0[i] == b->Rational_0[i] by {
                    assert(8 * i + 8 <= 8 * c);
                    lemma_load_prefix(le, p, d, o + 8 * i);
                    lemma_load_prefix(le, p, d, o + 8 * i + 4);
                }
                assert(a->Rational_0 =~= b->Rational_0);
            } else if typ == 6 {
                assert forall|i: int| 0 <= i < c implies #[trigger] a->SByte_0[i] == b->SByte_0[i] by {
                    assert(1 * i + 1 <= 1 * c);
                    lemma_load_prefix(le, p, d, o + 1 * i);
                    lemma_load_prefix(le, p, d, o + 1 * i + 4);
                }
                assert(a->SByte_0 =~= b->SByte_0);
            } else if typ == 8 {
                assert forall|i: int| 0 <= i < c implies #[trigger] a->SShort_0[i] == b->SShort_0[i] by {
                    assert(2 * i + 2 <= 2 * c);
                    lemma_load_prefix(le, p, d, o + 2 * i);
                    lemma_load_prefix(le, p, d, o + 2 * i + 4);
                }
                assert(a->SShort_0 =~= b->SShort_0);
            } else if typ == 9 {
                assert forall|i: int| 0 <= i < c implies #[trigger] a->SLong_0[i] == b->SLong_0[i] by {
                    assert(4 * i + 4 <= 4 * c);
                    lemma_load_prefix(le, p, d, o + 4 * i);
                    lemma_load_prefix(le, p, d, o + 4 * i + 4);
                }
                assert(a->SLong_0 =~= b->SLong_0);
            } else if typ == 10 {
                assert forall|i: int| 0 <= i < c implies #[trigger] a->SRational_0[i] == b->SRational_0[i] by {
                    assert(8 * i + 8 <= 8 * c);
                    lemma_load_prefix(le, p, d, o + 8 * i);
                    lemma_load_prefix(le, p, d, o + 8 * i + 4);
                }
                assert(a->SRational_0 =~= b->SRational_0);
            } else if typ == 11 {
                assert forall|i: int| 0 <= i < c implies #[trigger] a->Float_0[i] == b->Float_0[i] by {
                    assert(4 * i + 4 <= 4 * c);
                    lemma_load_prefix(le, p, d, o + 4 * i);
                    lemma_load_prefix(le, p, d, o + 4 * i + 4);
                }
                assert(a->Float_0 =~= b->Float_0);
            } else if typ == 12 {
                assert forall|i: int| 0 <= i < c implies #[trigger] a->Double_0[i] == b->Double_0[i] by {
                    assert(8 * i + 8 <= 8 * c);
                    lemma_load_prefix(le, p, d, o + 8 * i);
                    lemma_load_prefix(le, p, d, o + 8 * i + 4);
                }
                assert(a->Double_0 =~= b->Double_0);
            }
        }
    }
}

proof fn lemma_in_bounds_concat(p: Seq<u8>, a: Seq<FieldView>, b: Seq<FieldView>)
    requires
        all_in_bounds(p, a),
        all_in_bounds(p, b),
    ensures
        all_in_bounds(p, a + b),
{
    assert forall|i: int| 0 <= i < (a + b).len() implies placeholder_in_bounds(
        p,
        #[trigger] (a + b)[i].value,
    ) by {
        if i < a.len() {
            assert((a + b)[i] == a[i]);
        } else {
            assert((a + b)[i] == b[i - a.len()]);
        }
    }
}

proof fn lemma_entry_prefix(le: bool, p: Seq<u8>, d: Seq<u8>, off: int)
    requires
        is_prefix(p, d),
        0 <= off,
        off + 12 <= p.len(),
        entry_spec(le, p, off) is Ok,
    ensures
        entry_spec(le, d, off) == entry_spec(le, p, off),
        placeholder_in_bounds(p, entry_spec(le, p, off)->Ok_0.1),
{
    lemma_load_prefix(le, p, d, off);
    lemma_load_prefix(le, p, d, off + 2);
    lemma_load_prefix(le, p, d, off + 4);
    lemma_load_prefix(le, p, d, off + 8);
}

proof fn lemma_ifd_prefix(le: bool, p: Seq<u8>, d: Seq<u8>, off: int, ctx: Context, n: u16)
    requires
        is_prefix(p, d),
        0 <= off,
        ifd_spec(le, p, off, ctx, n) is Ok,
    ensures
        ifd_spec(le, d, off, ctx, n) == ifd_spec(le, p, off, ctx, n),
        all_in_bounds(p, ifd_spec(le, p, off, ctx, n)->Ok_0.0),
    decreases depth(ctx), 2nat, 0int,
{
    lemma_load_prefix(le, p, d, off);
    let count = spec_u16(le, p, off) as int;
    lemma_entries_prefix(le, p, d, off, count, 0, ctx, n);
    lemma_load_prefix(le, p, d, off + 2 + count * 12);
}

proof fn lemma_entries_prefix(
    le: bool,
    p: Seq<u8>,
    d: Seq<u8>,
    off: int,
    count: int,
    i: int,
    ctx: Context,
    n: u16,
)
    requires
        is_prefix(p, d),
        0 <= off,
        0 <= i,
        off + 2 + count * 12 <= p.len(),
        entries_spec(le, p, off, count, i, ctx, n) is Ok,
    ensures
        entries_spec(le, d, off, count, i, ctx, n) == entries_spec(le, p, off, count, i, ctx, n),
        all_in_bounds(p, entries_spec(le, p, off, count, i, ctx, n)->Ok_0),
    decreases depth(ctx), 1nat, count - i,
{
    if i < count {
        lemma_entry_fields_prefix(le, p, d, off + 2 + i * 12, ctx, n);
        lemma_entries_prefix(le, p, d, off, count, i + 1, ctx, n);
        let fs = entry_fields(le, p, off + 2 + i * 12, ctx, n)->Ok_0;
        let rest = entries_spec(le, p, off, count, i + 1, ctx, n)->Ok_0;
        lemma_in_bounds_concat(p, fs, rest);
    }
}

proof fn lemma_entry_fields_prefix(le: bool, p: Seq<u8>, d: Seq<u8>, off: int, ctx: Context, n: u16)
    requires
        is_prefix(p, d),
        0 <= off,
        off + 12 <= p.len(),
        entry_fields(le, p, off, ctx, n) is Ok,
    ensures
        entry_fields(le, d, off, ctx, n) == entry_fields(le, p, off, ctx, n),
        all_in_bounds(p, entry_fields(le, p, off, ctx, n)->Ok_0),
    decreases depth(ctx), 0nat, 0int,
{
    lemma_entry_prefix(le, p, d, off);
    let (num, val) = entry_spec(le, p, off)->Ok_0;
    if let Some(c) = child_context(Tag(ctx, num)) {
        lemma_child_prefix(le, p, d, val, c, n);
    } else {
        let fs = entry_fields(le, p, off, ctx, n)->Ok_0;
        assert(fs[0].value == val);
    }
}

proof fn lemma_child_prefix(le: bool, p: Seq<u8>, d: Seq<u8>, ptr: ValueView, c: Context, n: u16)
    requires
        is_prefix(p, d),
        placeholder_in_bounds(p, ptr),
        child_spec(le, p, ptr, c, n) is Ok,
    ensures
        child_spec(le, d, ptr, c, n) == child_spec(le, p, ptr, c, n),
        all_in_bounds(p, child_spec(le, p, ptr, c, n)->Ok_0),
    decreases depth(c), 3nat, 0int,
{
    lemma_resolve_prefix(le, p, d, ptr);
    let ofs = uint_at(resolve_spec(le, p, ptr), 0)->Some_0;
    lemma_ifd_prefix(le, p, d, ofs as int, c, n);
}

proof fn lemma_chain_prefix(le: bool, p: Seq<u8>, d: Seq<u8>, ofs: int, n: int)
    requires
        is_prefix(p, d),
        0 <= ofs,
        chain_spec(le, p, ofs, n) is Ok,
    ensures
        chain_spec(le, d, ofs, n) == chain_spec(le, p, ofs, n),
        all_in_bounds(p, chain_spec(le, p, ofs, n)->Ok_0),
    decreases 8 - n,
{
    lemma_chain_step(le, p, ofs, n);
    lemma_chain_step(le, d, ofs, n);
    if ofs != 0 && 0 <= n < 8 {
        lemma_ifd_prefix(le, p, d, ofs, Context::Tiff, n as u16);
        let (es, next) = ifd_spec(le, p, ofs, Context::Tiff, n as u16)->Ok_0;
        lemma_chain_prefix(le, p, d, next as int, n + 1);
        lemma_in_bounds_concat(p, es, chain_spec(le, p, next as int, n + 1)->Ok_0);
    }
}

/// Cutting TIFF data short never changes what it decodes to: if the first
/// `k` bytes decode, the whole data decodes to the same fields and the
/// same values.  Otherwise the cut data is rejected with an error; the
/// decoder never reads out of bounds.
pub proof fn lemma_truncation(d: Seq<u8>, k: int)
    requires
        0 <= k <= d.len(),
        tiff_spec(d.subrange(0, k)) is Ok,
    ensures
        tiff_spec(d) == tiff_spec(d.subrange(0, k)),
        exif_spec(d) == exif_spec(d.subrange(0, k)),
{
    let p = d.subrange(0, k);
    assert(is_prefix(p, d));
    lemma_load_prefix(false, p, d, 0);
    let le = tiff_spec(p)->Ok_0.1;
    lemma_load_prefix(le, p, d, 2);
    lemma_load_prefix(le, p, d, 4);
    lemma_chain_prefix(le, p, d, spec_u32(le, p, 4) as int, 0);
    let es = tiff_spec(p)->Ok_0.0;
    assert forall|i: int| 0 <= i < es.len() implies #[trigger] resolve_fields(le, d, es)[i]
        == resolve_fields(le, p, es)[i] by {
        lemma_resolve_prefix(le, p, d, es[i].value);
    }
    assert(resolve_fields(le, d, es) =~= resolve_fields(le, p, es));
}

/// `e` stores the 16-bit integer of `d` at `o` in the other byte order.
pub open spec fn swapped16(d: Seq<u8>, e: Seq<u8>, o: int) -> bool {
    reversed_groups(d, e, o, 2, 2)
}

/// `e` stores the 32-bit integer of `d` at `o` in the other byte order.
pub open spec fn swapped32(d: Seq<u8>, e: Seq<u8>, o: int) -> bool {
    reversed_groups(d, e, o, 4, 4)
}

/// `e` stores the value that the placeholder `v` stands for in the other
/// byte order.
pub open spec fn value_mirrored(d: Seq<u8>, e: Seq<u8>, v: ValueView) -> bool {
    match v {
        ValueView::Unknown(typ, cnt, ofs) => reversed_groups(
            d,
            e,
            ofs as int,
            unit_size(typ) * cnt,
            swap_width(typ),
        ),
        _ => true,
    }
}

/// Every placeholder of `fs` is stored in `e` in the other byte order.
pub open spec fn all_mirrored(d: Seq<u8>, e: Seq<u8>, fs: Seq<FieldView>) -> bool {
    forall|i: int| 0 <= i < fs.len() ==> value_mirrored(d, e, #[trigger] fs[i].value)
}

/// `e` stores the big-endian entry of `d` at `off` in little endian: its
/// tag, type, count, offset and value.
pub open spec fn entry_mirrored(d: Seq<u8>, e: Seq<u8>, off: int) -> bool {
    let typ = spec_u16(false, d, off + 2);
    let cnt = spec_u32(false, d, off + 4);
    let vallen = unit_size(typ) * cnt;
    &&& swapped16(d, e, off)
    &&& swapped16(d, e, off + 2)
    &&& swapped32(d, e, off + 4)
    &&& if vallen <= 4 {
        reversed_groups(d, e, off + 8, vallen, swap_width(typ))
    } else {
        swapped32(d, e, off + 8) && reversed_groups(
            d,
            e,
            spec_u32(false, d, off + 8) as int,
            vallen,
            swap_width(typ),
        )
    }
}

/// `e` stores the big-endian directory of `d` at `off`, and the
/// sub-directories it points to, in little endian.
pub open spec fn ifd_mirrored(d: Seq<u8>, e: Seq<u8>, off: int, ctx: Context, n: u16) -> bool
    decreases depth(ctx), 2nat, 0int,
{
    let count = spec_u16(false, d, off) as int;
    &&& swapped16(d, e, off)
    &&& entries_mirrored(d, e, off, count, 0, ctx, n)
    &&& swapped32(d, e, off + 2 + count * 12)
}

/// The entries `i..count` of the directory at `off`.
pub open spec fn entries_mirrored(
    d: Seq<u8>,
    e: Seq<u8>,
    off: int,
    count: int,
    i: int,
    ctx: Context,
    n: u16,
) -> bool
    decreases depth(ctx), 1nat, count - i,
{
    if i >= count {
        true
    } else {
        &&& entry_fields_mirrored(d, e, off + 2 + i * 12, ctx, n)
        &&& entries_mirrored(d, e, off, count, i + 1, ctx, n)
    }
}

/// The entry at `off` and the sub-directory it points to, if any.
pub open spec fn entry_fields_mirrored(d: Seq<u8>, e: Seq<u8>, off: int, ctx: Context, n: u16) -> bool
    decreases depth(ctx), 0nat, 0int,
{
    &&& entry_mirrored(d, e, off)
    &&& match entry_spec(false, d, off) {
        Ok((num, val)) => match child_context(Tag(ctx, num)) {
            Some(c) => child_mirrored(d, e, val, c, n),
            None => true,
        },
        Err(_) => true,
    }
}

/// The sub-directory that the pointer value `ptr` of `d` leads to.
pub open spec fn child_mirrored(d: Seq<u8>, e: Seq<u8>, ptr: ValueView, c: Context, n: u16) -> bool
    decreases depth(c), 3nat, 0int,
{
    match uint_at(resolve_spec(false, d, ptr), 0) {
        Some(ofs) => ifd_mirrored(d, e, ofs as int, c, n),
        None => true,
    }
}

/// The chain of top-level directories that starts at `ofs`.
pub open spec fn chain_mirrored(d: Seq<u8>, e: Seq<u8>, ofs: int, n: int) -> bool
    decreases 8 - n,
{
    if ofs == 0 || n >= 8 || n < 0 {
        true
    } else {
        &&& ifd_mirrored(d, e, ofs, Context::Tiff, n as u16)
        &&& match ifd_spec(false, d, ofs, Context::Tiff, n as u16) {
            Ok((_, next)) => chain_mirrored(d, e, next as int, n + 1),
            Err(_) => true,
        }
    }
}

/// `e` is the big-endian TIFF data `d` stored in little endian: the same
/// length, the "II" mark, and every integer of the header, of the
/// directories, of their entries and of the values of the entries stored
/// in the other byte order.
pub open spec fn le_mirror_of(d: Seq<u8>, e: Seq<u8>) -> bool {
    &&& e.len() == d.len()
    &&& e.len() >= 8
    &&& e[0] == 0x49 && e[1] == 0x49
    &&& swapped16(d, e, 2)
    &&& swapped32(d, e, 4)
    &&& chain_mirrored(d, e, spec_u32(false, d, 4) as int, 0)
}

proof fn lemma_swapped(d: Seq<u8>, e: Seq<u8>, o: int)
    ensures
        swapped16(d, e, o) ==> spec_u16(true, e, o) == spec_u16(false, d, o),
        swapped32(d, e, o) ==> spec_u32(true, e, o) == spec_u32(false, d, o),
{
    if swapped16(d, e, o) {
        lemma_group2(d, e, o, 2, 0);
    }
    if swapped32(d, e, o) {
        lemma_group4(d, e, o, 4, 0);
    }
}

proof fn lemma_entry_mirror(d: Seq<u8>, e: Seq<u8>, off: int)
    requires
        0 <= off,
        off + 12 <= d.len(),
        e.len() == d.len(),
        entry_mirrored(d, e, off),
        entry_spec(false, d, off) is Ok,
    ensures
        entry_spec(true, e, off) == entry_spec(false, d, off),
        value_mirrored(d, e, entry_spec(false, d, off)->Ok_0.1),
        placeholder_in_bounds(d, entry_spec(false, d, off)->Ok_0.1),
{
    lemma_swapped(d, e, off);
    lemma_swapped(d, e, off + 2);
    lemma_swapped(d, e, off + 4);
    lemma_swapped(d, e, off + 8);
    lemma_entry_prefix(false, d, d, off);
}

proof fn lemma_ifd_mirror(d: Seq<u8>, e: Seq<u8>, off: int, ctx: Context, n: u16)
    requires
        0 <= off,
        e.len() == d.len(),
        ifd_mirrored(d, e, off, ctx, n),
        ifd_spec(false, d, off, ctx, n) is Ok,
    ensures
        ifd_spec(true, e, off, ctx, n) == ifd_spec(false, d, off, ctx, n),
        all_mirrored(d, e, ifd_spec(false, d, off, ctx, n)->Ok_0.0),
    decreases depth(ctx), 2nat, 0int,
{
    lemma_swapped(d, e, off);
    let count = spec_u16(false, d, off) as int;
    lemma_entries_mirror(d, e, off, count, 0, ctx, n);
    lemma_swapped(d, e, off + 2 + count * 12);
}

proof fn lemma_mirrored_concat(d: Seq<u8>, e: Seq<u8>, a: Seq<FieldView>, b: Seq<FieldView>)
    requires
        all_mirrored(d, e, a),
        all_mirrored(d, e, b),
    ensures
        all_mirrored(d, e, a + b),
{
    assert forall|i: int| 0 <= i < (a + b).len() implies value_mirrored(
        d,
        e,
        #[trigger] (a + b)[i].value,
    ) by {
        if i < a.len() {
            assert((a + b)[i] == a[i]);
        } else {
            assert((a + b)[i] == b[i - a.len()]);
        }
    }
}

proof fn lemma_entries_mirror(
    d: Seq<u8>,
    e: Seq<u8>,
    off: int,
    count: int,
    i: int,
    ctx: Context,
    n: u16,
)
    requires
        0 <= off,
        0 <= i,
        off + 2 + count * 12 <= d.len(),
        e.len() == d.len(),
        entries_mirrored(d, e, off, count, i, ctx, n),
        entries_spec(false, d, off, count, i, ctx, n) is Ok,
    ensures
        entries_spec(true, e, off, count, i, ctx, n) == entries_spec(false, d, off, count, i, ctx, n),
        all_mirrored(d, e, entries_spec(false, d, off, count, i, ctx, n)->Ok_0),
    decreases depth(ctx), 1nat, count - i,
{
    if i < count {
        lemma_entry_fields_mirror(d, e, off + 2 + i * 12, ctx, n);
        lemma_entries_mirror(d, e, off, count, i + 1, ctx, n);
        let fs = entry_fields(false, d, off + 2 + i * 12, ctx, n)->Ok_0;
        let rest = entries_spec(false, d, off, count, i + 1, ctx, n)->Ok_0;
        lemma_mirrored_concat(d, e, fs, rest);
    }
}

proof fn lemma_entry_fields_mirror(d: Seq<u8>, e: Seq<u8>, off: int, ctx: Context, n: u16)
    requires
        0 <= off,
        off + 12 <= d.len(),
        e.len() == d.len(),
        entry_fields_mirrored(d, e, off, ctx, n),
        entry_fields(false, d, off, ctx, n) is Ok,
    ensures
        entry_fields(true, e, off, ctx, n) == entry_fields(false, d, off, ctx, n),
        all_mirrored(d, e, entry_fields(false, d, off, ctx, n)->Ok_0),
    decreases depth(ctx), 0nat, 0int,
{
    lemma_entry_mirror(d, e, off);
    let (num, val) = entry_spec(false, d, off)->Ok_0;
    if let Some(c) = child_context(Tag(ctx, num)) {
        lemma_child_mirror(d, e, val, c, n);
    } else {
        let fs = entry_fields(false, d, off, ctx, n)->Ok_0;
        assert(fs[0].value == val);
    }
}

proof fn lemma_child_mirror(d: Seq<u8>, e: Seq<u8>, ptr: ValueView, c: Context, n: u16)
    requires
        e.len() == d.len(),
        placeholder_in_bounds(d, ptr),
        value_mirrored(d, e, ptr),
        child_mirrored(d, e, ptr, c, n),
        child_spec(false, d, ptr, c, n) is Ok,
    ensures
        child_spec(true, e, ptr, c, n) == child_spec(false, d, ptr, c, n),
        all_mirrored(d, e, child_spec(false, d, ptr, c, n)->Ok_0),
    decreases depth(c), 3nat, 0int,
{
    lemma_resolve_mirror(d, e, ptr);
    let ofs = uint_at(resolve_spec(false, d, ptr), 0)->Some_0;
    lemma_ifd_mirror(d, e, ofs as int, c, n);
}

/// A placeholder stored in the other byte order resolves to the same value.
proof fn lemma_resolve_mirror(d: Seq<u8>, e: Seq<u8>, v: ValueView)
    requires
        e.len() == d.len(),
        placeholder_in_bounds(d, v),
        value_mirrored(d, e, v),
    ensures
        resolve_spec(true, e, v) == resolve_spec(false, d, v),
{
    if let ValueView::Unknown(typ, cnt, ofs) = v {
        if unit_size(typ) != 0 {
            lemma_decode_byte_order(typ, d, e, ofs as int, cnt as int);
        }
    }
}

proof fn lemma_chain_mirror(d: Seq<u8>, e: Seq<u8>, ofs: int, n: int)
    requires
        0 <= ofs,
        e.len() == d.len(),
        chain_mirrored(d, e, ofs, n),
        chain_spec(false, d, ofs, n) is Ok,
    ensures
        chain_spec(true, e, ofs, n) == chain_spec(false, d, ofs, n),
        all_mirrored(d, e, chain_spec(false, d, ofs, n)->Ok_0),
    decreases 8 - n,
{
    lemma_chain_step(false, d, ofs, n);
    lemma_chain_step(true, e, ofs, n);
    if ofs != 0 && 0 <= n < 8 {
        lemma_ifd_mirror(d, e, ofs, Context::Tiff, n as u16);
        let (es, next) = ifd_spec(false, d, ofs, Context::Tiff, n as u16)->Ok_0;
        lemma_chain_mirror(d, e, next as int, n + 1);
        lemma_mirrored_concat(d, e, es, chain_spec(false, d, next as int, n + 1)->Ok_0);
    }
}

/// Byte order does not change what TIFF data decodes to: big-endian data
/// and the same structure stored in little endian decode to the same
/// fields with the same values; only the reported byte order differs.
pub proof fn lemma_byte_order_independence(d: Seq<u8>, e: Seq<u8>)
    requires
        exif_spec(d) is Ok,
        !exif_spec(d)->Ok_0.1,
        le_mirror_of(d, e),
    ensures
        tiff_spec(e) == Ok::<(Seq<FieldView>, bool), Error>((tiff_spec(d)->Ok_0.0, true)),
        exif_spec(e) == Ok::<(Seq<FieldView>, bool), Error>((exif_spec(d)->Ok_0.0, true)),
{
    lemma_swapped(d, e, 2);
    lemma_swapped(d, e, 4);
    let first = spec_u32(false, d, 4) as int;
    lemma_chain_mirror(d, e, first, 0);
    assert(is_prefix(d, d));
    lemma_chain_prefix(false, d, d, first, 0);
    let es = tiff_spec(d)->Ok_0.0;
    assert forall|i: int| 0 <= i < es.len() implies #[trigger] resolve_fields(true, e, es)[i]
        == resolve_fields(false, d, es)[i] by {
        lemma_resolve_mirror(d, e, es[i].value);
    }
    assert(resolve_fields(true, e, es) =~= resolve_fields(false, d, es));
}

/// A failure, if any, is a format error.
pub open spec fn format_error<T>(r: Result<T, Error>) -> bool {
    r is Err ==> r->Err_0 is InvalidFormat
}

/// Every field belongs to the directory `n`.
pub open spec fn all_in_ifd(fs: Seq<FieldView>, n: u16) -> bool {
    forall|i: int| 0 <= i < fs.len() ==> (#[trigger] fs[i]).ifd_num == In(n)
}

proof fn lemma_all_in_ifd_concat(a: Seq<FieldView>, b: Seq<FieldView>, n: u16)
    requires
        all_in_ifd(a, n),
        all_in_ifd(b, n),
    ensures
        all_in_ifd(a + b, n),
{
    assert forall|i: int| 0 <= i < (a + b).len() implies (#[trigger] (a + b)[i]).ifd_num == In(n) by {
        if i < a.len() {
            assert((a + b)[i] == a[i]);
        } else {
            assert((a + b)[i] == b[i - a.len()]);
        }
    }
}

proof fn lemma_ifd_shape(le: bool, d: Seq<u8>, off: int, ctx: Context, n: u16)
    ensures
        format_error(ifd_spec(le, d, off, ctx, n)),
        ifd_spec(le, d, off, ctx, n) is Ok ==> all_in_ifd(ifd_spec(le, d, off, ctx, n)->Ok_0.0, n),
    decreases depth(ctx), 2nat, 0int,
{
    let count = spec_u16(le, d, off) as int;
    lemma_entries_shape(le, d, off, count, 0, ctx, n);
}

proof fn lemma_entries_shape(
    le: bool,
    d: Seq<u8>,
    off: int,
    count: int,
    i: int,
    ctx: Context,
    n: u16,
)
    ensures
        format_error(entries_spec(le, d, off, count, i, ctx, n)),
        entries_spec(le, d, off, count, i, ctx, n) is Ok ==> all_in_ifd(
            entries_spec(le, d, off, count, i, ctx, n)->Ok_0,
            n,
        ),
    decreases depth(ctx), 1nat, count - i,
{
    if i < count {
        lemma_entry_fields_shape(le, d, off + 2 + i * 12, ctx, n);
        lemma_entries_shape(le, d, off, count, i + 1, ctx, n);
        if entries_spec(le, d, off, count, i, ctx, n) is Ok {
            lemma_all_in_ifd_concat(
                entry_fields(le, d, off + 2 + i * 12, ctx, n)->Ok_0,
                entries_spec(le, d, off, count, i + 1, ctx, n)->Ok_0,
                n,
            );
        }
    }
}

proof fn lemma_entry_fields_shape(le: bool, d: Seq<u8>, off: int, ctx: Context, n: u16)
    ensures
        format_error(entry_fields(le, d, off, ctx, n)),
        entry_fields(le, d, off, ctx, n) is Ok ==> all_in_ifd(
            entry_fields(le, d, off, ctx, n)->Ok_0,
            n,
        ),
    decreases depth(ctx), 0nat, 0int,
{
    if let Ok((num, val)) = entry_spec(le, d, off) {
        if let Some(c) = child_context(Tag(ctx, num)) {
            lemma_child_shape(le, d, val, c, n);
        } else {
            let fs = entry_fields(le, d, off, ctx, n)->Ok_0;
            assert(fs[0].ifd_num == In(n));
        }
    }
}

proof fn lemma_child_shape(le: bool, d: Seq<u8>, ptr: ValueView, c: Context, n: u16)
    ensures
        format_error(child_spec(le, d, ptr, c, n)),
        child_spec(le, d, ptr, c, n) is Ok ==> all_in_ifd(child_spec(le, d, ptr, c, n)->Ok_0, n),
    decreases depth(c), 3nat, 0int,
{
    if let Some(ofs) = uint_at(resolve_spec(le, d, ptr), 0) {
        lemma_ifd_shape(le, d, ofs as int, c, n);
    }
}

proof fn lemma_chain_shape(le: bool, d: Seq<u8>, ofs: int, n: int)
    requires
        0 <= n,
    ensures
        format_error(chain_spec(le, d, ofs, n)),
        chain_spec(le, d, ofs, n) is Ok ==> forall|i: int|
            0 <= i < chain_spec(le, d, ofs, n)->Ok_0.len() ==> n <= (
            #[trigger] chain_spec(le, d, ofs, n)->Ok_0[i]).ifd_num.0 < 8,
    decreases 8 - n,
{
    lemma_chain_step(le, d, ofs, n);
    if ofs != 0 && n < 8 {
        lemma_ifd_shape(le, d, ofs, Context::Tiff, n as u16);
        if let Ok((es, next)) = ifd_spec(le, d, ofs, Context::Tiff, n as u16) {
            lemma_chain_shape(le, d, next as int, n + 1);
            if let Ok(rest) = chain_spec(le, d, next as int, n + 1) {
                let all = es + rest;
                assert forall|i: int| 0 <= i < all.len() implies n <= (#[trigger] all[i]).ifd_num.0
                    < 8 by {
                    if i < es.len() {
                        assert(all[i] == es[i]);
                    } else {
                        assert(all[i] == rest[i - es.len()]);
                    }
                }
            }
        }
    }
}

/// Every input, cut short or not, either decodes or fails with a format
/// error; the fields that it decodes to all belong to one of the first
/// eight directories of the chain.
pub proof fn lemma_decode_outcome(d: Seq<u8>)
    ensures
        format_error(tiff_spec(d)),
        format_error(exif_spec(d)),
        tiff_spec(d) is Ok ==> forall|i: int|
            0 <= i < tiff_spec(d)->Ok_0.0.len() ==> (#[trigger] tiff_spec(d)->Ok_0.0[i]).ifd_num.0
                < 8,
{
    if d.len() >= 8 {
        lemma_chain_shape(false, d, spec_u32(false, d, 4) as int, 0);
        lemma_chain_shape(true, d, spec_u32(true, d, 4) as int, 0);
    }
}

/// The offset of the `k`-th directory of the chain after the one at `ofs`
/// (numbered `n`); 0 once a directory cannot be decoded.
pub open spec fn link(le: bool, d: Seq<u8>, ofs: int, n: int, k: nat) -> int
    decreases k,
{
    if k == 0 {
        ofs
    } else {
        match ifd_spec(le, d, ofs, Context::Tiff, n as u16) {
            Ok((_, next)) => link(le, d, next as int, n + 1, (k - 1) as nat),
            Err(_) => 0,
        }
    }
}

/// The `k` directories of the chain from the one at `ofs` (numbered `n`)
/// are present and decode.
pub open spec fn links_ok(le: bool, d: Seq<u8>, ofs: int, n: int, k: nat) -> bool
    decreases k,
{
    k == 0 || (ofs != 0 && match ifd_spec(le, d, ofs, Context::Tiff, n as u16) {
        Ok((_, next)) => links_ok(le, d, next as int, n + 1, (k - 1) as nat),
        Err(_) => false,
    })
}

proof fn lemma_chain_links(le: bool, d: Seq<u8>, ofs: int, n: int)
    requires
        0 <= n <= 8,
        links_ok(le, d, ofs, n, (8 - n) as nat),
    ensures
        link(le, d, ofs, n, (8 - n) as nat) == 0 ==> chain_spec(le, d, ofs, n) is Ok,
        link(le, d, ofs, n, (8 - n) as nat) != 0 ==> chain_spec(le, d, ofs, n) == Err::<
            Seq<FieldView>,
            Error,
        >(Error::InvalidFormat("Limit the IFD count to 8")),
    decreases 8 - n,
{
    lemma_chain_step(le, d, ofs, n);
    if n < 8 {
        let next = ifd_spec(le, d, ofs, Context::Tiff, n as u16)->Ok_0.1;
        lemma_chain_links(le, d, next as int, n + 1);
    }
}

/// Whether `d` starts with a valid TIFF header in the byte order `le`.
pub open spec fn valid_header(le: bool, d: Seq<u8>) -> bool {
    &&& d.len() >= 8
    &&& spec_u16(false, d, 0) == if le {
        0x4949u16
    } else {
        0x4d4du16
    }
    &&& spec_u16(le, d, 2) == 0x2a
}

/// A chain of exactly eight directories decodes, their fields numbered
/// below 8; a chain whose eight directories decode and which goes on to a
/// ninth (a loop back to an earlier one included) fails with the
/// directory limit, and no field is returned.
pub proof fn lemma_directory_limit(le: bool, d: Seq<u8>)
    requires
        valid_header(le, d),
        links_ok(le, d, spec_u32(le, d, 4) as int, 0, 8),
    ensures
        link(le, d, spec_u32(le, d, 4) as int, 0, 8) == 0 ==> tiff_spec(d) is Ok && forall|i: int|
            0 <= i < tiff_spec(d)->Ok_0.0.len() ==> (#[trigger] tiff_spec(d)->Ok_0.0[i]).ifd_num.0
                < 8,
        link(le, d, spec_u32(le, d, 4) as int, 0, 8) != 0 ==> tiff_spec(d) == Err::<
            (Seq<FieldView>, bool),
            Error,
        >(Error::InvalidFormat("Limit the IFD count to 8")),
{
    lemma_chain_links(le, d, spec_u32(le, d, 4) as int, 0);
    lemma_decode_outcome(d);
}

/// The first failing entry decides the result of the entries after `i`.
pub proof fn lemma_first_entry_error(
    le: bool,
    d: Seq<u8>,
    off: int,
    count: int,
    i: int,
    j: int,
    ctx: Context,
    n: u16,
)
    requires
        i <= j < count,
        forall|k: int| i <= k < j ==> (#[trigger] entry_fields(le, d, off + 2 + k * 12, ctx, n)) is Ok,
        entry_fields(le, d, off + 2 + j * 12, ctx, n) is Err,
    ensures
        entries_spec(le, d, off, count, i, ctx, n) == entry_fields(le, d, off + 2 + j * 12, ctx, n),
    decreases j - i,
{
    if i < j {
        assert(entry_fields(le, d, off + 2 + i * 12, ctx, n) is Ok);
        lemma_first_entry_error(le, d, off, count, i + 1, j, ctx, n);
    }
}

/// A pointer to a sub-directory (Exif, GPS or interoperability) whose
/// directory decodes but names a next directory fails the pointer entry
/// with "Unexpected next IFD"; when the entries before it decode, the
/// directory that holds it fails with that error, and no field is
/// returned.
pub proof fn lemma_chained_subdirectory(le: bool, d: Seq<u8>, off: int, j: int, ctx: Context, n: u16)
    requires
        0 <= off,
        0 <= j < spec_u16(le, d, off),
        off + 2 + spec_u16(le, d, off) * 12 + 4 <= d.len(),
        forall|k: int| 0 <= k < j ==> (#[trigger] entry_fields(le, d, off + 2 + k * 12, ctx, n)) is Ok,
        ({
            let e = entry_spec(le, d, off + 2 + j * 12);
            &&& e is Ok
            &&& child_context(Tag(ctx, e->Ok_0.0)) is Some
            &&& uint_at(resolve_spec(le, d, e->Ok_0.1), 0) is Some
            &&& ifd_spec(
                le,
                d,
                uint_at(resolve_spec(le, d, e->Ok_0.1), 0)->Some_0 as int,
                child_context(Tag(ctx, e->Ok_0.0))->Some_0,
                n,
            ) matches Ok((_, next)) && next != 0
        }),
    ensures
        entry_fields(le, d, off + 2 + j * 12, ctx, n) == Err::<Seq<FieldView>, Error>(
            Error::InvalidFormat("Unexpected next IFD"),
        ),
        ifd_spec(le, d, off, ctx, n) == Err::<(Seq<FieldView>, u32), Error>(
            Error::InvalidFormat("Unexpected next IFD"),
        ),
{
    let count = spec_u16(le, d, off) as int;
    lemma_first_entry_error(le, d, off, count, 0, j, ctx, n);
}

} // verus!
