use exif::ifd::DateTime;
use exif::tiff::Parser;
use exif::{parse_exif, Error, Field, In, Rational, Tag, Value};

#[test]
fn in_convert() {
    assert_eq!(In::PRIMARY().index(), 0);
    assert_eq!(In::THUMBNAIL().index(), 1);
    assert_eq!(In(2).index(), 2);
    assert_eq!(In(65535).index(), 65535);
    assert_eq!(In::PRIMARY(), In(0));
}

#[test]
fn in_display() {
    assert_eq!(format!("{:10}", In::PRIMARY().to_string()), "primary   ");
    assert_eq!(format!("{:>10}", In::THUMBNAIL().to_string()), " thumbnail");
    assert_eq!(format!("{:10}", In(2).to_string()), "IFD2      ");
    assert_eq!(format!("{:^10}", In(65535).to_string()), " IFD65535 ");
}

#[test]
fn truncated() {
    let mut data = b"MM\0\x2a\0\0\0\x08\
          \0\x01\x01\0\0\x03\0\0\0\x01\0\x14\0\0\0\0\0\0"
        .to_vec();
    parse_exif(&data).unwrap();
    while let Some(_) = data.pop() {
        parse_exif(&data).unwrap_err();
    }
}

// Before the error is returned, the IFD is parsed multiple times
// as the 0th, 1st, ..., and n-th IFDs.
#[test]
fn inf_loop_by_next() {
    let data = b"MM\0\x2a\0\0\0\x08\
                 \0\x01\x01\0\0\x03\0\0\0\x01\0\x14\0\0\0\0\0\x08";
    assert!(matches!(
        parse_exif(data),
        Err(Error::InvalidFormat("Limit the IFD count to 8"))
    ));
}

#[test]
fn inf_loop_by_exif_next() {
    let data = b"MM\x00\x2a\x00\x00\x00\x08\
                 \x00\x01\x87\x69\x00\x04\x00\x00\x00\x01\x00\x00\x00\x1a\
                 \x00\x00\x00\x00\
                 \x00\x01\x90\x00\x00\x07\x00\x00\x00\x040231\
                 \x00\x00\x00\x08";
    assert!(matches!(
        parse_exif(data),
        Err(Error::InvalidFormat("Unexpected next IFD"))
    ));
}

#[test]
fn unknown_field() {
    let data = b"MM\0\x2a\0\0\0\x08\
                 \0\x01\x01\0\xff\xff\0\0\0\x01\0\x14\0\0\0\0\0\0";
    let (v, _le) = parse_exif(data).unwrap();
    assert_eq!(v.len(), 1);
    assert!(matches!(v[0].value, Value::Unknown(0xffff, 1, 0x12)));
}

#[test]
fn parse_ifd_entry() {
    // BYTE (type == 1)
    let data = b"\x02\x03\x00\x01\0\0\0\x04ABCD";
    assert!(matches!(
        Parser::parse_ifd_entry(false, data, 0).unwrap(),
        (0x0203, Value::Unknown(1, 4, 8))
    ));
    let data = b"\x02\x03\x00\x01\0\0\0\x05\0\0\0\x0cABCDE";
    assert!(matches!(
        Parser::parse_ifd_entry(false, data, 0).unwrap(),
        (0x0203, Value::Unknown(1, 5, 12))
    ));
    let data = b"\x02\x03\x00\x01\0\0\0\x05\0\0\0\x0cABCD";
    assert!(matches!(
        Parser::parse_ifd_entry(false, data, 0),
        Err(Error::InvalidFormat("Truncated field value"))
    ));

    // SHORT (type == 3)
    let data = b"X\x04\x05\x00\x03\0\0\0\x02ABCD";
    assert!(matches!(
        Parser::parse_ifd_entry(false, data, 1).unwrap(),
        (0x0405, Value::Unknown(3, 2, 9))
    ));
    let data = b"X\x04\x05\x00\x03\0\0\0\x03\0\0\0\x0eXABCDEF";
    assert!(matches!(
        Parser::parse_ifd_entry(false, data, 1).unwrap(),
        (0x0405, Value::Unknown(3, 3, 14))
    ));
    let data = b"X\x04\x05\x00\x03\0\0\0\x03\0\0\0\x0eXABCDE";
    assert!(matches!(
        Parser::parse_ifd_entry(false, data, 1),
        Err(Error::InvalidFormat("Truncated field value"))
    ));

    // Really unknown
    let data = b"X\x01\x02\x03\x04\x05\x06\x07\x08ABCD";
    assert!(matches!(
        Parser::parse_ifd_entry(false, data, 1).unwrap(),
        (0x0102, Value::Unknown(0x0304, 0x05060708, 9))
    ));
}

#[test]
fn date_time() {
    let mut dt = DateTime::from_ascii(b"2016:05:04 03:02:01").unwrap();
    assert_eq!(dt.year, 2016);
    assert_eq!(dt.to_string(), "2016-05-04 03:02:01");

    dt.parse_subsec(b"987").unwrap();
    assert_eq!(dt.nanosecond.unwrap(), 987000000);
    dt.parse_subsec(b"000987").unwrap();
    assert_eq!(dt.nanosecond.unwrap(), 987000);
    dt.parse_subsec(b"987654321").unwrap();
    assert_eq!(dt.nanosecond.unwrap(), 987654321);
    dt.parse_subsec(b"9876543219").unwrap();
    assert_eq!(dt.nanosecond.unwrap(), 987654321);
    dt.parse_subsec(b"130   ").unwrap();
    assert_eq!(dt.nanosecond.unwrap(), 130000000);
    dt.parse_subsec(b"0").unwrap();
    assert_eq!(dt.nanosecond.unwrap(), 0);
    dt.parse_subsec(b"").unwrap();
    assert!(dt.nanosecond.is_none());
    dt.parse_subsec(b" ").unwrap();
    assert!(dt.nanosecond.is_none());

    dt.parse_offset(b"+00:00").unwrap();
    assert_eq!(dt.offset.unwrap(), 0);
    dt.parse_offset(b"+01:23").unwrap();
    assert_eq!(dt.offset.unwrap(), 83);
    dt.parse_offset(b"+99:99").unwrap();
    assert_eq!(dt.offset.unwrap(), 6039);
    dt.parse_offset(b"-01:23").unwrap();
    assert_eq!(dt.offset.unwrap(), -83);
    dt.parse_offset(b"-99:99").unwrap();
    assert_eq!(dt.offset.unwrap(), -6039);
    assert!(matches!(dt.parse_offset(b"   :  "), Err(Error::BlankValue(_))));
    assert!(matches!(dt.parse_offset(b"      "), Err(Error::BlankValue(_))));
}

#[test]
fn tiff_display_value_with_unit() {
    let cm = Field {
        tag: Tag::ResolutionUnit(),
        ifd_num: In::PRIMARY(),
        value: Value::Short(vec![3]),
    };
    let cm_tn = Field {
        tag: Tag::ResolutionUnit(),
        ifd_num: In::THUMBNAIL(),
        value: Value::Short(vec![3]),
    };
    // No unit.
    let exifver = Field {
        tag: Tag::ExifVersion(),
        ifd_num: In::PRIMARY(),
        value: Value::Undefined(b"0231".to_vec(), 0),
    };
    assert_eq!(exifver.display_value().to_string(), "2.31");
    assert_eq!(exifver.display_value().with_unit(()).to_string(), "2.31");
    assert_eq!(exifver.display_value().with_unit(&cm).to_string(), "2.31");
    // Fixed string.
    let width = Field {
        tag: Tag::ImageWidth(),
        ifd_num: In::PRIMARY(),
        value: Value::Short(vec![257]),
    };
    assert_eq!(width.display_value().to_string(), "257");
    assert_eq!(width.display_value().with_unit(()).to_string(), "257 pixels");
    assert_eq!(width.display_value().with_unit(&cm).to_string(), "257 pixels");
    // Unit tag (with a non-default value).
    // Unit tag is missing but the default is specified.
    let xres = Field {
        tag: Tag::XResolution(),
        ifd_num: In::PRIMARY(),
        value: Value::Rational(vec![(300, 1).into()]),
    };
    assert_eq!(xres.display_value().to_string(), "300");
    assert_eq!(
        xres.display_value().with_unit(()).to_string(),
        "300 pixels per inch"
    );
    assert_eq!(
        xres.display_value().with_unit(&cm).to_string(),
        "300 pixels per cm"
    );
    assert_eq!(
        xres.display_value().with_unit(&cm_tn).to_string(),
        "300 pixels per inch"
    );
    // Unit tag is missing and the default is not specified.
    let gpslat = Field {
        tag: Tag::GPSLatitude(),
        ifd_num: In::PRIMARY(),
        value: Value::Rational(vec![(10, 1).into(), (0, 1).into(), (1, 10).into()]),
    };
    assert_eq!(gpslat.display_value().to_string(), "10 deg 0 min 0.1 sec");
    assert_eq!(
        gpslat.display_value().with_unit(()).to_string(),
        "10 deg 0 min 0.1 sec [GPSLatitudeRef missing]"
    );
    assert_eq!(
        gpslat.display_value().with_unit(&cm).to_string(),
        "10 deg 0 min 0.1 sec [GPSLatitudeRef missing]"
    );
}

#[test]
fn no_borrow_no_move() {
    let resunit = Field {
        tag: Tag::ResolutionUnit(),
        ifd_num: In::PRIMARY(),
        value: Value::Short(vec![3]),
    };
    let d = resunit.display_value().with_unit(());
    assert_eq!(d.to_string(), "cm");
    let d1 = resunit.display_value();
    let d2 = d1.with_unit(());
    assert_eq!(d1.to_string(), "cm");
    assert_eq!(d2.to_string(), "cm");
}

#[test]
fn rational_from_pair() {
    let r: Rational = (7, 2).into();
    assert_eq!(r, Rational { num: 7, denom: 2 });
}
