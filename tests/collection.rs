use byteorder::{BigEndian, ByteOrder, LittleEndian};
use exif::ifd::DateTime;
use exif::{is_tiff, parse_exif, Context, Error, Exif, Field, In, Reader, SRational, Tag, Value};

fn is_big<B: ByteOrder>() -> bool {
    let mut t = [0u8; 2];
    B::write_u16(&mut t, 0x0102);
    t[0] == 1
}

fn put16<B: ByteOrder>(v: &mut Vec<u8>, x: u16) {
    let mut t = [0u8; 2];
    B::write_u16(&mut t, x);
    v.extend_from_slice(&t);
}

fn put32<B: ByteOrder>(v: &mut Vec<u8>, x: u32) {
    let mut t = [0u8; 4];
    B::write_u32(&mut t, x);
    v.extend_from_slice(&t);
}

fn header<B: ByteOrder>(first: u32) -> Vec<u8> {
    let mut v = if is_big::<B>() { b"MM".to_vec() } else { b"II".to_vec() };
    put16::<B>(&mut v, 42);
    put32::<B>(&mut v, first);
    v
}

fn entry<B: ByteOrder>(v: &mut Vec<u8>, tag: u16, typ: u16, count: u32, value: &[u8]) {
    put16::<B>(v, tag);
    put16::<B>(v, typ);
    put32::<B>(v, count);
    let mut field = value.to_vec();
    field.resize(4, 0);
    v.extend_from_slice(&field);
}

fn short_bytes<B: ByteOrder>(xs: &[u16]) -> Vec<u8> {
    let mut v = Vec::new();
    for &x in xs {
        put16::<B>(&mut v, x);
    }
    v
}

fn long_bytes<B: ByteOrder>(x: u32) -> Vec<u8> {
    let mut v = Vec::new();
    put32::<B>(&mut v, x);
    v
}

// The same structure in either byte order: IFD0 with a SHORT, an ASCII,
// a RATIONAL and a pointer to an Exif IFD holding an UNDEFINED, an
// SRATIONAL and two SSHORTs.
fn sample<B: ByteOrder>() -> Vec<u8> {
    let mut v = header::<B>(8);
    put16::<B>(&mut v, 4);
    entry::<B>(&mut v, 0x100, 3, 1, &short_bytes::<B>(&[257]));
    entry::<B>(&mut v, 0x10e, 2, 5, &long_bytes::<B>(62));
    entry::<B>(&mut v, 0x11a, 5, 1, &long_bytes::<B>(68));
    entry::<B>(&mut v, 0x8769, 4, 1, &long_bytes::<B>(76));
    put32::<B>(&mut v, 0);
    assert_eq!(v.len(), 62);
    v.extend_from_slice(b"Test\0\0");
    put32::<B>(&mut v, 72);
    put32::<B>(&mut v, 1);
    assert_eq!(v.len(), 76);
    put16::<B>(&mut v, 3);
    entry::<B>(&mut v, 0x9000, 7, 4, b"0231");
    entry::<B>(&mut v, 0x9201, 10, 1, &long_bytes::<B>(118));
    entry::<B>(&mut v, 0x9204, 8, 2, &short_bytes::<B>(&[(-3i16) as u16, 7]));
    put32::<B>(&mut v, 0);
    assert_eq!(v.len(), 118);
    put32::<B>(&mut v, (-5i32) as u32);
    put32::<B>(&mut v, 2);
    v
}

fn chain<B: ByteOrder>(links: u32) -> Vec<u8> {
    let mut v = header::<B>(8);
    for i in 0..links {
        put16::<B>(&mut v, 1);
        entry::<B>(&mut v, 0x100, 3, 1, &short_bytes::<B>(&[i as u16]));
        let next = if i + 1 == links { 0 } else { 8 + 18 * (i + 1) };
        put32::<B>(&mut v, next);
    }
    v
}

#[test]
fn big_and_little_endian_decode_alike() {
    let (be, be_le) = parse_exif(&sample::<BigEndian>()).unwrap();
    let (le, le_le) = parse_exif(&sample::<LittleEndian>()).unwrap();
    assert!(!be_le);
    assert!(le_le);
    assert_eq!(be, le);
    assert_eq!(be.len(), 6);
    assert_eq!(be[0].value, Value::Short(vec![257]));
    assert_eq!(be[1].value, Value::Ascii(vec![b"Test".to_vec()]));
    assert_eq!(be[2].value, Value::Rational(vec![(72, 1).into()]));
    assert_eq!(be[3].tag, Tag(Context::Exif, 0x9000));
    assert_eq!(be[3].value, Value::Undefined(b"0231".to_vec(), 86));
    assert_eq!(be[4].value, Value::SRational(vec![SRational { num: -5, denom: 2 }]));
    assert_eq!(be[5].value, Value::SShort(vec![-3, 7]));
    assert!(be.iter().all(|f| f.ifd_num == In::PRIMARY()));
}

#[test]
fn chain_of_eight_directories() {
    let (v, _) = parse_exif(&chain::<BigEndian>(8)).unwrap();
    assert_eq!(v.len(), 8);
    for (i, f) in v.iter().enumerate() {
        assert_eq!(f.ifd_num, In(i as u16));
        assert_eq!(f.value, Value::Short(vec![i as u16]));
    }
}

#[test]
fn chain_of_nine_directories() {
    assert!(matches!(
        parse_exif(&chain::<LittleEndian>(9)),
        Err(Error::InvalidFormat("Limit the IFD count to 8"))
    ));
}

#[test]
fn truncation_keeps_decode_or_fails() {
    let mut data = sample::<BigEndian>();
    let whole = parse_exif(&data).unwrap();
    data.extend_from_slice(b"trailing bytes");
    for k in 0..=data.len() {
        match parse_exif(&data[..k]) {
            Ok(r) => assert_eq!(r, whole),
            Err(Error::InvalidFormat(_)) => assert!(k < 126),
            Err(e) => panic!("unexpected error {:?}", e),
        }
    }
}

#[test]
fn header_errors() {
    let cases: [(&[u8], &str); 8] = [
        (b"MM\0\x2a", "Truncated TIFF header"),
        (b"XX\0\x2a\0\0\0\x08", "Invalid TIFF byte order"),
        (b"MM\0\x2b\0\0\0\x08", "Invalid forty two"),
        (b"MM\0\x2a\0\0\0\x10", "Truncated IFD count"),
        (b"MM\0\x2a\0\0\0\x08\0\x02\0\0\0\0\0\0\0\0\0\0\0\0", "Truncated IFD"),
        (b"MM\0\x2a\0\0\0\x08\0\0", "Truncated next IFD offset"),
        (
            b"MM\0\x2a\0\0\0\x08\0\x01\x87\x69\0\x02\0\0\0\x01AAAA\0\0\0\0",
            "Invalid pointer",
        ),
        (
            b"MM\0\x2a\0\0\0\x08\0\x01\x01\0\0\x03\0\0\0\x03\0\0\0\x40\0\0\0\0",
            "Truncated field value",
        ),
    ];
    for (data, msg) in cases.iter() {
        assert_eq!(parse_exif(data), Err(Error::InvalidFormat(msg)));
    }
    assert_eq!(parse_exif(b"MM\0\x2a\0\0\0\0"), Ok((vec![], false)));
}

#[test]
fn every_type_decodes() {
    let mut v = header::<BigEndian>(8);
    put16::<BigEndian>(&mut v, 6);
    entry::<BigEndian>(&mut v, 1, 1, 3, &[1, 2, 3]);
    entry::<BigEndian>(&mut v, 2, 6, 2, &[0xff, 0x01]);
    entry::<BigEndian>(&mut v, 3, 4, 1, &long_bytes::<BigEndian>(70000));
    entry::<BigEndian>(&mut v, 4, 11, 1, &long_bytes::<BigEndian>(0x3f80_0000));
    entry::<BigEndian>(&mut v, 5, 2, 4, b"a\0b\0");
    entry::<BigEndian>(&mut v, 6, 9, 1, &long_bytes::<BigEndian>(0xffff_fffe));
    put32::<BigEndian>(&mut v, 0);
    let (f, _) = parse_exif(&v).unwrap();
    assert_eq!(f[0].value, Value::Byte(vec![1, 2, 3]));
    assert_eq!(f[1].value, Value::SByte(vec![-1, 1]));
    assert_eq!(f[2].value, Value::Long(vec![70000]));
    assert_eq!(f[3].value, Value::Float(vec![0x3f80_0000]));
    assert_eq!(f[4].value, Value::Ascii(vec![b"a".to_vec(), b"b".to_vec()]));
    assert_eq!(f[5].value, Value::SLong(vec![-2]));
    assert_eq!(f[4].display_value().to_string(), "\"a\", \"b\"");
    assert_eq!(f[3].display_value().to_string(), "0x3f800000");
}

#[test]
fn is_tiff_signatures() {
    assert!(is_tiff(b"MM\0\x2a\0\0\0\x08"));
    assert!(is_tiff(b"II\x2a\0\x08\0\0\0"));
    assert!(!is_tiff(b"MM\x2a\0"));
    assert!(!is_tiff(b"II"));
}

#[test]
fn lookup_finds_last_duplicate() {
    let mut v = header::<BigEndian>(8);
    put16::<BigEndian>(&mut v, 2);
    entry::<BigEndian>(&mut v, 0x100, 3, 1, &short_bytes::<BigEndian>(&[257]));
    entry::<BigEndian>(&mut v, 0x100, 3, 1, &short_bytes::<BigEndian>(&[300]));
    put32::<BigEndian>(&mut v, 0);
    let exif = Reader::new().read_raw(v).unwrap();
    let fields = exif.fields();
    assert_eq!(fields.len(), 2);
    let f = exif.get_field(Tag::ImageWidth(), In::PRIMARY()).unwrap();
    assert_eq!(f.value, Value::Short(vec![300]));
    assert_eq!(f, fields[1]);
    assert!(exif.get_field(Tag::ImageWidth(), In::THUMBNAIL()).is_none());
    assert!(exif.get_field(Tag::ImageLength(), In::PRIMARY()).is_none());
}

#[test]
fn lookup_agrees_with_enumeration() {
    let exif = Reader::new().read_raw(sample::<LittleEndian>()).unwrap();
    assert!(exif.little_endian());
    assert_eq!(exif.buf().len(), 126);
    let fields = exif.fields();
    for f in fields.iter() {
        assert_eq!(exif.get_field(f.tag, f.ifd_num).as_ref(), Some(f));
    }
}

#[test]
fn enumerating_twice_is_identical() {
    let exif = Reader::new().read_raw(sample::<BigEndian>()).unwrap();
    let first = exif.fields();
    let second = exif.fields();
    assert_eq!(first, second);
    assert_eq!(first.len(), 6);
}

#[test]
fn merge_concatenates() {
    let a = Reader::new().read_raw(sample::<BigEndian>()).unwrap();
    let b = Reader::new().read_raw(chain::<LittleEndian>(2)).unwrap();
    let m = Exif::merge_two_exif(&a, &b);
    assert!(!m.little_endian());
    assert!(m.buf().is_empty());
    let mut expected = a.fields();
    expected.extend(b.fields());
    assert_eq!(m.fields(), expected);
    let w = m.get_field(Tag::ImageWidth(), In::PRIMARY()).unwrap();
    assert_eq!(w.value, Value::Short(vec![0]));
    let d = m.get_field(Tag::ImageDescription(), In::PRIMARY()).unwrap();
    assert_eq!(d.value, Value::Ascii(vec![b"Test".to_vec()]));
}

fn resolution_sample() -> Vec<u8> {
    let mut v = header::<BigEndian>(8);
    put16::<BigEndian>(&mut v, 2);
    entry::<BigEndian>(&mut v, 0x11a, 5, 1, &long_bytes::<BigEndian>(56));
    entry::<BigEndian>(&mut v, 0x128, 3, 1, &short_bytes::<BigEndian>(&[3]));
    put32::<BigEndian>(&mut v, 38);
    put16::<BigEndian>(&mut v, 1);
    entry::<BigEndian>(&mut v, 0x11a, 5, 1, &long_bytes::<BigEndian>(56));
    put32::<BigEndian>(&mut v, 0);
    put32::<BigEndian>(&mut v, 72);
    put32::<BigEndian>(&mut v, 1);
    v
}

#[test]
fn unit_from_collection() {
    let exif = Reader::new().read_raw(resolution_sample()).unwrap();
    let x0 = exif.get_field(Tag::XResolution(), In::PRIMARY()).unwrap();
    assert_eq!(x0.display_value().with_unit(&exif).to_string(), "72 pixels per cm");
    let x1 = exif.get_field(Tag::XResolution(), In::THUMBNAIL()).unwrap();
    assert_eq!(x1.display_value().with_unit(&exif).to_string(), "72 pixels per inch");
    let unit = exif.get_field(Tag::ResolutionUnit(), In::PRIMARY()).unwrap();
    assert_eq!(unit.display_value().with_unit(&exif).to_string(), "cm");
}

#[test]
fn raw_read_errors() {
    assert_eq!(
        Reader::new().read_raw(b"II\x2a\0".to_vec()).err(),
        Some(Error::InvalidFormat("Truncated TIFF header"))
    );
}

#[test]
fn date_time_errors() {
    assert_eq!(
        DateTime::from_ascii(b"    :  :     :  :  ").err(),
        Some(Error::BlankValue("DateTime is blank"))
    );
    assert_eq!(
        DateTime::from_ascii(b"                   ").err(),
        Some(Error::BlankValue("DateTime is blank"))
    );
    assert_eq!(
        DateTime::from_ascii(b"2016:05:04").err(),
        Some(Error::InvalidFormat("DateTime too short"))
    );
    assert_eq!(
        DateTime::from_ascii(b"2016-05-04 03:02:01").err(),
        Some(Error::InvalidFormat("Invalid DateTime delimiter"))
    );
    assert_eq!(
        DateTime::from_ascii(b"2016:0a:04 03:02:01").err(),
        Some(Error::InvalidFormat("Not a number"))
    );
    let mut dt = DateTime::from_ascii(b"2016:13:04 23:59:60").unwrap();
    assert_eq!((dt.month, dt.day, dt.hour, dt.minute, dt.second), (13, 4, 23, 59, 60));
    assert_eq!(dt.to_string(), "2016-13-04 23:59:60");
    dt.parse_subsec(b"5").unwrap();
    assert_eq!(dt.parse_subsec(b"12a"), Err(Error::InvalidFormat("Not a number")));
    assert_eq!(dt.nanosecond, Some(500_000_000));
    assert_eq!(dt.parse_offset(b"*01:23"), Err(Error::InvalidFormat("Invalid OffsetTime sign")));
    assert_eq!(dt.parse_offset(b"+01"), Err(Error::InvalidFormat("OffsetTime too short")));
    assert_eq!(
        dt.parse_offset(b"+01-23"),
        Err(Error::InvalidFormat("Invalid OffsetTime delimiter"))
    );
    assert_eq!(dt.offset, None);
    let early = DateTime::from_ascii(b"0099:01:02 03:04:05").unwrap();
    assert_eq!(early.to_string(), "0099-01-02 03:04:05");
}

#[test]
fn field_clone_and_compare() {
    let f = Field { tag: Tag::Make(), ifd_num: In(3), value: Value::Ascii(vec![b"X".to_vec()]) };
    assert_eq!(f.clone(), f);
    assert_eq!(f.ifd_num.to_string(), "IFD3");
}
