use exif::{Context, Field, In, Rational, Tag, Value};

fn field(tag: Tag, value: Value) -> Field {
    Field { tag, ifd_num: In::PRIMARY(), value }
}

#[test]
fn decimals() {
    let f = field(Tag::XResolution(), Value::Rational(vec![(1, 2).into(), (5, 2).into()]));
    assert_eq!(f.display_value().to_string(), "0.5, 2.5");
    let f = field(Tag::FocalLength(), Value::Rational(vec![(1, 3).into()]));
    assert_eq!(f.display_value().to_string(), "0.333333333");
    assert_eq!(f.display_value().with_unit(()).to_string(), "0.333333333 mm");
    let f = field(Tag::FNumber(), Value::Rational(vec![(28, 10).into()]));
    assert_eq!(f.display_value().with_unit(()).to_string(), "f/2.8");
    let f = field(Tag::XResolution(), Value::Rational(vec![(1, 0).into()]));
    assert_eq!(f.display_value().to_string(), "1/0");
}

#[test]
fn default_rendering() {
    let f = field(Tag::Make(), Value::Ascii(vec![b"a\"b\\c\x01".to_vec()]));
    assert_eq!(f.display_value().to_string(), "\"a\\\"b\\\\c\\x01\"");
    let f = field(Tag(Context::Tiff, 0xabcd), Value::Undefined(vec![1, 2, 0xff], 0));
    assert_eq!(f.display_value().to_string(), "0x0102ff");
    let f = field(Tag(Context::Tiff, 0xabcd), Value::Unknown(0xffff, 1, 0x12));
    assert_eq!(f.display_value().to_string(), "unknown value (type=65535, count=1, offset=0x12)");
    let f = field(Tag(Context::Tiff, 0xabcd), Value::SShort(vec![-3, 7]));
    assert_eq!(f.display_value().to_string(), "-3, 7");
    let f = field(Tag(Context::Tiff, 0xabcd), Value::Rational(vec![Rational { num: 3, denom: 4 }]));
    assert_eq!(f.display_value().to_string(), "3/4");
    let f = field(Tag(Context::Tiff, 0xabcd), Value::SRational(vec![(-3, 4).into()]));
    assert_eq!(f.display_value().to_string(), "-3/4");
    let f = field(Tag(Context::Tiff, 0xabcd), Value::Double(vec![0x3ff0_0000_0000_0000]));
    assert_eq!(f.display_value().to_string(), "0x3ff0000000000000");
    let f = field(Tag(Context::Tiff, 0xabcd), Value::Byte(vec![]));
    assert_eq!(f.display_value().to_string(), "");
}

#[test]
fn tag_specific_rendering() {
    let f = field(Tag::ExifVersion(), Value::Undefined(b"0220".to_vec(), 0));
    assert_eq!(f.display_value().to_string(), "2.2");
    let f = field(Tag::ExifVersion(), Value::Undefined(b"abcd".to_vec(), 0));
    assert_eq!(f.display_value().to_string(), "unknown format 0x61626364");
    let f = field(Tag::ResolutionUnit(), Value::Short(vec![9]));
    assert_eq!(f.display_value().to_string(), "unknown unit 9");
    let f = field(Tag::ResolutionUnit(), Value::Short(vec![2]));
    assert_eq!(f.display_value().to_string(), "inch");
    let f = field(Tag::GPSAltitudeRef(), Value::Byte(vec![0]));
    assert_eq!(f.display_value().to_string(), "above sea level");
}

#[test]
fn unit_from_field() {
    let alt = field(Tag::GPSAltitude(), Value::Rational(vec![(1, 2).into()]));
    let below = field(Tag::GPSAltitudeRef(), Value::Byte(vec![1]));
    assert_eq!(
        alt.display_value().with_unit(&below).to_string(),
        "0.5 meters below sea level"
    );
    assert_eq!(
        alt.display_value().with_unit(()).to_string(),
        "0.5 meters above sea level"
    );
    let lat = field(Tag::GPSLatitude(), Value::Rational(vec![(10, 1).into(), (0, 1).into(), (0, 1).into()]));
    let north = field(Tag::GPSLatitudeRef(), Value::Ascii(vec![b"N".to_vec()]));
    assert_eq!(
        lat.display_value().with_unit(&north).to_string(),
        "10 deg 0 min 0 sec \"N\""
    );
}
