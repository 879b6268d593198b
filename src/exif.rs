use vstd::prelude::*;

use std::collections::HashMap;

use crate::ifd::{is_final, lemma_resolve_final, resolve_spec, Field, FieldView, IfdEntry, In};
use crate::tag::{Context, Tag};
use crate::tiff::{fields_view, raw_fields, resolve_fields};
use crate::MutOnce;

verus! {

broadcast use vstd::std_specs::hash::group_hash_axioms;

/// The code of a context inside a lookup key.
pub open spec fn context_code(c: Context) -> int {
    match c {
        Context::Tiff => 0,
        Context::Exif => 1,
        Context::Gps => 2,
        Context::Interop => 3,
        Context::FujiRaf => 4,
    }
}

/// The lookup key of a field: its IFD number, its context and its tag number.
pub open spec fn field_key(ifd_num: In, tag: Tag) -> u64 {
    (ifd_num.0 as int * 0x100_0000 + context_code(tag.0) * 0x1_0000 + tag.1 as int) as u64
}

/// Distinct (IFD number, tag) pairs have distinct keys.
pub proof fn lemma_key_injective(a: In, s: Tag, b: In, t: Tag)
    requires
        field_key(a, s) == field_key(b, t),
    ensures
        a == b,
        s == t,
{
    let ka = a.0 as int * 0x100_0000 + context_code(s.0) * 0x1_0000 + s.1 as int;
    let kb = b.0 as int * 0x100_0000 + context_code(t.0) * 0x1_0000 + t.1 as int;
    assert(ka == kb);
    assert(a.0 == b.0);
    assert(context_code(s.0) == context_code(t.0));
    assert(s.1 == t.1);
}

fn key_of(ifd_num: In, tag: Tag) -> (r: u64)
    ensures
        r == field_key(ifd_num, tag),
{
    let code: u64 = match tag.0 {
        Context::Tiff => 0,
        Context::Exif => 1,
        Context::Gps => 2,
        Context::Interop => 3,
        Context::FujiRaf => 4,
    };
    ifd_num.0 as u64 * 0x100_0000 + code * 0x1_0000 + tag.1 as u64
}

/// The position of the last field whose key is `k`.
pub open spec fn last_index(fs: Seq<FieldView>, k: u64) -> Option<int>
    decreases fs.len(),
{
    if fs.len() == 0 {
        None
    } else if field_key(fs.last().ifd_num, fs.last().tag) == k {
        Some(fs.len() - 1)
    } else {
        last_index(fs.drop_last(), k)
    }
}

/// The last field with the given tag and IFD number.
pub open spec fn lookup(fs: Seq<FieldView>, tag: Tag, ifd_num: In) -> Option<FieldView> {
    match last_index(fs, field_key(ifd_num, tag)) {
        Some(i) => Some(fs[i]),
        None => None,
    }
}

/// The map sends each key to the position of its last field.
pub open spec fn map_matches(m: Map<u64, usize>, fs: Seq<FieldView>) -> bool {
    forall|k: u64|
        (#[trigger] m.contains_key(k) <==> last_index(fs, k) is Some) && (m.contains_key(k)
            ==> m[k] as int == last_index(fs, k)->Some_0)
}

pub proof fn lemma_last_index_range(fs: Seq<FieldView>, k: u64)
    ensures
        last_index(fs, k) is Some ==> {
            let i = last_index(fs, k)->Some_0;
            &&& 0 <= i < fs.len()
            &&& field_key(fs[i].ifd_num, fs[i].tag) == k
            &&& forall|j: int| i < j < fs.len() ==> field_key(fs[j].ifd_num, fs[j].tag) != k
        },
        last_index(fs, k) is None ==> forall|j: int|
            0 <= j < fs.len() ==> field_key(fs[j].ifd_num, fs[j].tag) != k,
    decreases fs.len(),
{
    if fs.len() > 0 {
        lemma_last_index_range(fs.drop_last(), k);
        assert forall|j: int| 0 <= j < fs.len() - 1 implies fs.drop_last()[j] == fs[j] by {}
    }
}

/// Keys depend on tags and IFD numbers only, which resolving keeps.
pub proof fn lemma_last_index_resolve(le: bool, d: Seq<u8>, fs: Seq<FieldView>, k: u64)
    ensures
        last_index(resolve_fields(le, d, fs), k) == last_index(fs, k),
    decreases fs.len(),
{
    let rs = resolve_fields(le, d, fs);
    if fs.len() > 0 {
        assert(rs.drop_last() =~= resolve_fields(le, d, fs.drop_last()));
        lemma_last_index_resolve(le, d, fs.drop_last(), k);
    }
}

/// The field that `lookup` finds has the tag and the IFD number asked for.
pub proof fn lemma_lookup_matches(fs: Seq<FieldView>, tag: Tag, ifd_num: In)
    ensures
        lookup(fs, tag, ifd_num) matches Some(f) ==> f.tag == tag && f.ifd_num == ifd_num,
{
    let k = field_key(ifd_num, tag);
    lemma_last_index_range(fs, k);
    if let Some(i) = last_index(fs, k) {
        lemma_key_injective(fs[i].ifd_num, fs[i].tag, ifd_num, tag);
    }
}

fn build_entry_map(entries: &Vec<IfdEntry>) -> (m: HashMap<u64, usize>)
    ensures
        map_matches(m@, raw_fields(entries@)),
{
    let ghost fs = raw_fields(entries@);
    let mut m: HashMap<u64, usize> = HashMap::new();
    let mut i: usize = 0;
    assert(fs.subrange(0, 0) =~= Seq::<FieldView>::empty());
    while i < entries.len()
        invariant
            i <= entries@.len(),
            fs == raw_fields(entries@),
            map_matches(m@, fs.subrange(0, i as int)),
        decreases entries@.len() - i,
    {
        let (ifd_num, tag) = entries[i].ifd_num_tag();
        let k = key_of(ifd_num, tag);
        let ghost prev = m@;
        m.insert(k, i);
        proof {
            let pre = fs.subrange(0, i as int);
            let cur = fs.subrange(0, i + 1);
            assert(cur.drop_last() =~= pre);
            assert(cur.last() == fs[i as int]);
            assert forall|k2: u64| #[trigger] m@.contains_key(k2) <==> last_index(cur, k2) is Some by {}
            assert forall|k2: u64| #[trigger] m@.contains_key(k2) implies m@[k2] as int == last_index(
                cur,
                k2,
            )->Some_0 by {}
        }
        i += 1;
    }
    assert(fs.subrange(0, i as int) =~= fs);
    m
}

/// The parsed Exif attributes.
///
/// The fields are kept in the order in which they were found, duplicates
/// included; a lookup by tag and IFD number finds the last of them.
/// A value is decoded from the TIFF data when it is first read.
#[derive(Debug)]
pub struct Exif {
    // TIFF data.
    buf: Vec<u8>,
    // Exif fields, in the order of the data.
    entries: Vec<IfdEntry>,
    // Lookup key to the index of the last entry with that key.
    entry_map: HashMap<u64, usize>,
    // True if the TIFF data is little endian.
    little_endian: bool,
}

impl Exif {
    #[verifier::type_invariant]
    spec fn inv(&self) -> bool {
        &&& forall|k: int| 0 <= k < self.entries@.len() ==> #[trigger] self.entries@[k].wf(self.buf@)
        &&& map_matches(self.entry_map@, raw_fields(self.entries@))
    }

    /// The fields as found, values not yet decoded.
    pub closed spec fn raw_spec(&self) -> Seq<FieldView> {
        raw_fields(self.entries@)
    }

    /// The fields, each value resolved.
    pub closed spec fn fields_spec(&self) -> Seq<FieldView> {
        resolve_fields(self.little_endian, self.buf@, raw_fields(self.entries@))
    }

    /// The TIFF data.
    pub closed spec fn buf_spec(&self) -> Seq<u8> {
        self.buf@
    }

    /// Whether the TIFF data is little endian.
    pub closed spec fn le_spec(&self) -> bool {
        self.little_endian
    }

    /// Builds the collection from TIFF data and the entries found in it.
    pub(crate) fn from_entries(buf: Vec<u8>, entries: Vec<IfdEntry>, little_endian: bool) -> (r:
        Exif)
        requires
            forall|k: int| 0 <= k < entries@.len() ==> #[trigger] entries@[k].wf(buf@),
        ensures
            r.fields_spec() == resolve_fields(little_endian, buf@, raw_fields(entries@)),
            r.buf_spec() == buf@,
            r.le_spec() == little_endian,
    {
        let entry_map = build_entry_map(&entries);
        Exif { buf, entries, entry_map, little_endian }
    }

    /// Returns the slice that holds the TIFF data.
    pub fn buf(&self) -> (r: &[u8])
        ensures
            r@ == self.buf_spec(),
    {
        self.buf.as_slice()
    }

    /// Returns the fields, in the order of the data, each value decoded.
    pub fn fields(&self) -> (r: Vec<Field>)
        ensures
            fields_view(r@) == self.fields_spec(),
    {
        proof {
            use_type_invariant(self);
        }
        let ghost es = raw_fields(self.entries@);
        let ghost le = self.little_endian;
        let ghost d = self.buf@;
        let mut out: Vec<Field> = Vec::new();
        let mut i: usize = 0;
        while i < self.entries.len()
            invariant
                i <= self.entries@.len(),
                es == raw_fields(self.entries@),
                le == self.little_endian,
                d == self.buf@,
                forall|k: int| 0 <= k < self.entries@.len() ==> #[trigger] self.entries@[k].wf(d),
                fields_view(out@) == resolve_fields(le, d, es.subrange(0, i as int)),
            decreases self.entries@.len() - i,
        {
            let f = self.entries[i].resolved_copy(self.buf.as_slice(), self.little_endian);
            let ghost prev = out@;
            assert(fields_view(prev).len() == i);
            out.push(f);
            proof {
                assert forall|j: int| 0 <= j < i + 1 implies #[trigger] fields_view(out@)[j]
                    == resolve_fields(le, d, es.subrange(0, i + 1))[j] by {
                    if j < i {
                        assert(out@[j] == prev[j]);
                        assert(fields_view(prev)[j] == resolve_fields(le, d, es.subrange(0, i as int))[j]);
                    } else {
                        assert(es[j] == raw_fields(self.entries@)[j]);
                    }
                }
            }
            i += 1;
            assert(fields_view(out@) =~= resolve_fields(le, d, es.subrange(0, i as int)));
        }
        assert(es.subrange(0, i as int) =~= es);
        out
    }

    /// Returns true if the TIFF data is in the little-endian byte order.
    pub fn little_endian(&self) -> (r: bool)
        ensures
            r == self.le_spec(),
    {
        self.little_endian
    }

    /// Returns the field with the given tag and IFD number; the last one if
    /// there are several.
    pub fn get_field(&self, tag: Tag, ifd_num: In) -> (r: Option<Field>)
        ensures
            match lookup(self.fields_spec(), tag, ifd_num) {
                Some(f) => r is Some && r->Some_0@ == f,
                None => r is None,
            },
    {
        proof {
            use_type_invariant(self);
        }
        let k = key_of(ifd_num, tag);
        let ghost es = raw_fields(self.entries@);
        proof {
            lemma_last_index_resolve(self.little_endian, self.buf@, es, k);
            lemma_last_index_range(es, k);
        }
        match self.entry_map.get(&k) {
            Some(i) => {
                let i = *i;
                assert(self.entries@[i as int].wf(self.buf@));
                let f = self.entries[i].resolved_copy(self.buf.as_slice(), self.little_endian);
                Some(f)
            },
            None => None,
        }
    }

    /// Combines two collections: the fields of `exif1`, then those of
    /// `exif2`. Every value is decoded first, so the result needs no TIFF
    /// data; it takes the byte order of `exif1`.
    pub fn merge_two_exif(exif1: &Exif, exif2: &Exif) -> (r: Exif)
        ensures
            r.fields_spec() == exif1.fields_spec() + exif2.fields_spec(),
            r.le_spec() == exif1.le_spec(),
            r.buf_spec() == Seq::<u8>::empty(),
    {
        let f1 = exif1.fields();
        let f2 = exif2.fields();
        let ghost all = fields_view(f1@) + fields_view(f2@);
        let ghost empty = Seq::<u8>::empty();
        proof {
            assert forall|k: int| 0 <= k < all.len() implies is_final(#[trigger] all[k].value) by {
                assert(fields_view(f1@).len() == f1@.len());
                if k < f1@.len() {
                    lemma_resolve_final(exif1.le_spec(), exif1.buf_spec(), exif1.raw_spec()[k].value);
                    assert(all[k] == exif1.fields_spec()[k]);
                } else {
                    lemma_resolve_final(exif2.le_spec(), exif2.buf_spec(), exif2.raw_spec()[k - f1@.len()].value);
                    assert(all[k] == exif2.fields_spec()[k - f1@.len()]);
                }
            }
        }
        let mut entries: Vec<IfdEntry> = Vec::new();
        Self::push_fixed(&mut entries, &f1);
        Self::push_fixed(&mut entries, &f2);
        assert(raw_fields(entries@) =~= all);
        let r = Exif::from_entries(Vec::new(), entries, exif1.little_endian);
        proof {
            assert forall|k: int| 0 <= k < all.len() implies #[trigger] resolve_fields(
                exif1.le_spec(),
                empty,
                all,
            )[k] == all[k] by {
                lemma_resolve_final(exif1.le_spec(), empty, all[k].value);
            }
            assert(resolve_fields(exif1.le_spec(), empty, all) =~= all);
        }
        r
    }

    fn push_fixed(entries: &mut Vec<IfdEntry>, fs: &Vec<Field>)
        requires
            forall|k: int| 0 <= k < old(entries)@.len() ==> #[trigger] old(entries)@[k].wf(
                Seq::<u8>::empty(),
            ),
            forall|k: int| 0 <= k < fs@.len() ==> is_final(#[trigger] fields_view(fs@)[k].value),
        ensures
            raw_fields(final(entries)@) == raw_fields(old(entries)@) + fields_view(fs@),
            forall|k: int| 0 <= k < final(entries)@.len() ==> #[trigger] final(entries)@[k].wf(
                Seq::<u8>::empty(),
            ),
    {
        let ghost start = raw_fields(entries@);
        let ghost empty = Seq::<u8>::empty();
        let mut i: usize = 0;
        assert(raw_fields(entries@) =~= start + fields_view(fs@).subrange(0, 0));
        while i < fs.len()
            invariant
                i <= fs@.len(),
                raw_fields(entries@) == start + fields_view(fs@).subrange(0, i as int),
                forall|k: int| 0 <= k < entries@.len() ==> #[trigger] entries@[k].wf(empty),
                forall|k: int| 0 <= k < fs@.len() ==> is_final(#[trigger] fields_view(fs@)[k].value),
            decreases fs@.len() - i,
        {
            let e = Self::fixed_entry(&fs[i]);
            let ghost prev = entries@;
            let ghost er = e.raw();
            entries.push(e);
            proof {
                assert(fields_view(fs@)[i as int] == fs@[i as int]@);
                assert(raw_fields(entries@) =~= raw_fields(prev).push(er));
                assert(start + fields_view(fs@).subrange(0, i + 1) =~= (start + fields_view(
                    fs@,
                ).subrange(0, i as int)).push(er));
                assert(raw_fields(entries@) =~= start + fields_view(fs@).subrange(0, i + 1));
                assert forall|k: int| 0 <= k < entries@.len() implies #[trigger] entries@[k].wf(
                    empty,
                ) by {
                    if k < prev.len() {
                        assert(entries@[k] == prev[k]);
                    }
                }
            }
            i += 1;
        }
        assert(fields_view(fs@).subrange(0, i as int) =~= fields_view(fs@));
    }

    fn fixed_entry(f: &Field) -> (r: IfdEntry)
        ensures
            r.raw() == f@,
            r.field.fixed(),
    {
        let mut cell = MutOnce::new(f.copied());
        let _ = cell.get_ref();
        IfdEntry { field: cell }
    }
}

/// A lookup by tag and IFD number agrees with the enumeration: it finds
/// the last enumerated field with that tag and IFD number, and finds
/// nothing exactly when no enumerated field has them.
pub proof fn lemma_get_field_in_fields(exif: &Exif, tag: Tag, ifd_num: In)
    ensures
        ({
            let fs = exif.fields_spec();
            match lookup(fs, tag, ifd_num) {
                Some(f) => exists|i: int|
                    0 <= i < fs.len() && fs[i] == f && f.tag == tag && f.ifd_num == ifd_num
                        && forall|j: int|
                        i < j < fs.len() ==> !(#[trigger] fs[j].tag == tag && fs[j].ifd_num
                            == ifd_num),
                None => forall|j: int|
                    0 <= j < fs.len() ==> !(#[trigger] fs[j].tag == tag && fs[j].ifd_num
                        == ifd_num),
            }
        }),
{
    let fs = exif.fields_spec();
    let k = field_key(ifd_num, tag);
    lemma_last_index_range(fs, k);
    lemma_lookup_matches(fs, tag, ifd_num);
    match last_index(fs, k) {
        Some(i) => {
            assert forall|j: int| i < j < fs.len() implies !(#[trigger] fs[j].tag == tag
                && fs[j].ifd_num == ifd_num) by {
                if fs[j].tag == tag && fs[j].ifd_num == ifd_num {
                    assert(field_key(fs[j].ifd_num, fs[j].tag) == k);
                }
            }
        },
        None => {
            assert forall|j: int| 0 <= j < fs.len() implies !(#[trigger] fs[j].tag == tag
                && fs[j].ifd_num == ifd_num) by {
                if fs[j].tag == tag && fs[j].ifd_num == ifd_num {
                    assert(field_key(fs[j].ifd_num, fs[j].tag) == k);
                }
            }
        },
    }
}

/// Enumerating is repeatable: the fields of a collection are already
/// decoded, so decoding them again changes none of them, and two
/// enumerations yield the same sequence in the same order.
pub proof fn lemma_fields_repeatable(exif: &Exif, first: Seq<FieldView>, second: Seq<FieldView>)
    requires
        first == exif.fields_spec(),
        second == exif.fields_spec(),
    ensures
        first == second,
        resolve_fields(exif.le_spec(), exif.buf_spec(), first) == first,
{
    let fs = exif.fields_spec();
    let le = exif.le_spec();
    let d = exif.buf_spec();
    assert forall|i: int| 0 <= i < fs.len() implies #[trigger] resolve_fields(le, d, fs)[i]
        == fs[i] by {
        let raw = exif.raw_spec()[i];
        lemma_resolve_final(le, d, raw.value);
        lemma_resolve_final(le, d, resolve_spec(le, d, raw.value));
    }
    assert(resolve_fields(le, d, fs) =~= fs);
}

} // verus!
