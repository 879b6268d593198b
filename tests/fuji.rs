use exif::fuji::{is_fuji_raf, parse_fuji_raw, FujiIFD, FujiParser, RafMakernotes};
use exif::{Context, Error, Tag, Value};

fn raf() -> Vec<u8> {
    let mut v = b"FUJIFILMCCD-RAW ".to_vec();
    v.resize(146, 0);
    v[84..88].copy_from_slice(&100u32.to_be_bytes());
    v[92..96].copy_from_slice(&120u32.to_be_bytes());
    v[112..114].copy_from_slice(b"MM");
    v[120..124].copy_from_slice(&3u32.to_be_bytes());
    v[124..132].copy_from_slice(&[0x01, 0x00, 0x00, 0x04, 0x00, 0x10, 0x00, 0x20]);
    v[132..138].copy_from_slice(&[0x12, 0x34, 0x00, 0x02, 0xaa, 0xbb]);
    v[138..146].copy_from_slice(&[0xc0, 0x00, 0x00, 0x04, 0x04, 0x03, 0x02, 0x01]);
    v
}

#[test]
fn raf_signature() {
    assert!(is_fuji_raf(b"FUJIFILMCCD-RAW "));
    assert!(!is_fuji_raf(b"FUJIFILX"));
}

#[test]
fn raf_tag_numbers() {
    assert_eq!(RafMakernotes::n(0x1000), Some(RafMakernotes::Quality));
    assert_eq!(RafMakernotes::Parallax.number(), 0xb211);
    assert_eq!(RafMakernotes::n(0x0001), None);
    assert_eq!(FujiIFD::n(0xf00a), Some(FujiIFD::BlackLevel));
    assert_eq!(FujiIFD::WB_GRBLevels.number(), 0xf00e);
}

#[test]
fn raf_records() {
    let exif = parse_fuji_raw(&raf()).unwrap();
    assert!(!exif.little_endian());
    assert!(exif.buf().is_empty());
    let f = exif.fields();
    assert_eq!(f.len(), 2);
    assert_eq!(f[0].tag, Tag(Context::FujiRaf, 0x100));
    assert_eq!(f[0].value, Value::Short(vec![16, 32]));
    assert_eq!(f[1].tag, Tag::RAFData());
    assert_eq!(f[1].value, Value::Long(vec![0x0102_0304]));
}

#[test]
fn raf_errors() {
    let mut v = raf();
    v[112..114].copy_from_slice(b"XX");
    assert_eq!(parse_fuji_raw(&v).err(), Some(Error::NotFound("Invalid endian")));
    let v = raf();
    assert_eq!(
        parse_fuji_raw(&v[..140]).err(),
        Some(Error::InvalidFormat("Truncated RAF tag record"))
    );
    assert_eq!(
        parse_fuji_raw(&v[..90]).err(),
        Some(Error::InvalidFormat("Truncated RAF header"))
    );
}

#[test]
fn raf_parser_state() {
    let mut p = FujiParser::default();
    assert!(p.parse(&raf()).is_ok());
    assert!(p.jpeg_exif.is_none());
    assert_eq!(p.raw_exif.as_ref().unwrap().fields().len(), 2);
    assert!(p.parse(b"FUJIFILM").is_ok());
    assert!(p.raw_exif.is_none());
}
