use vstd::prelude::*;

verus! {

/// The namespace in which a tag number is interpreted.
#[derive(Debug, Clone, Copy, PartialEq, Eq, Structural, Hash)]
pub enum Context {
    /// The primary TIFF directories.
    Tiff,
    /// The Exif sub-directory.
    Exif,
    /// The GPS sub-directory.
    Gps,
    /// The interoperability sub-directory.
    Interop,
    /// The tag records of a Fujifilm RAF file.
    FujiRaf,
}

/// A tag of a field: its context and its number.
#[derive(Debug, Clone, Copy, PartialEq, Eq, Structural, Hash)]
pub struct Tag(pub Context, pub u16);

/// How the value of a tag is rendered as text.
#[derive(Debug, Clone, Copy, PartialEq, Eq, Structural)]
pub enum Format {
    /// Elements separated by commas.
    Default,
    /// Rational elements as decimal numbers.
    Decimal,
    /// A four-digit version such as "0231" as "2.31".
    ExifVersion,
    /// The names of the resolution units.
    ResolutionUnit,
    /// Degrees, minutes and seconds.
    GpsDms,
    /// Above or below sea level.
    GpsAltitudeRef,
}

/// The unit template of a tag.
#[derive(Debug, Clone, Copy, PartialEq, Eq, Structural)]
pub enum Unit {
    /// "N pixels".
    Pixels,
    /// "N pixels per" and the resolution unit.
    PixelsPerResolutionUnit,
    /// "N s".
    Seconds,
    /// "f/N".
    FNumber,
    /// "N mm".
    Millimeters,
    /// "N %".
    Percent,
    /// The latitude and its reference (north or south).
    LatitudeRef,
    /// The longitude and its reference (east or west).
    LongitudeRef,
    /// "N meters" and the altitude reference.
    MetersAltitudeRef,
}

/// One piece of a unit template.
#[derive(Debug, Clone, Copy)]
pub enum UnitPiece {
    /// The value itself.
    Value,
    /// Fixed text.
    Str(&'static str),
    /// The value of another tag of the same directory.
    Tag(Tag),
}

/// The value that a tag has when it is absent, if the format defines one.
#[derive(Debug, Clone, Copy, PartialEq, Eq, Structural)]
pub enum DefaultValue {
    /// A SHORT value of one element.
    Short(u16),
    /// A BYTE value of one element.
    Byte(u8),
}

/// What this library knows of a tag: its name, its rendering, its unit
/// and its default value.
#[derive(Debug, Clone, Copy)]
pub struct TagInfo {
    pub name: &'static str,
    pub format: Format,
    pub unit: Option<Unit>,
    pub default: Option<DefaultValue>,
}

/// The table of known tags.
pub open spec fn spec_tag_info(t: Tag) -> Option<TagInfo> {
    match (t.0, t.1) {
        (Context::Tiff, 0x100) => Some(TagInfo { name: "ImageWidth", format: Format::Default, unit: Some(Unit::Pixels), default: None }),
        (Context::Tiff, 0x101) => Some(TagInfo { name: "ImageLength", format: Format::Default, unit: Some(Unit::Pixels), default: None }),
        (Context::Tiff, 0x102) => Some(TagInfo { name: "BitsPerSample", format: Format::Default, unit: None, default: None }),
        (Context::Tiff, 0x103) => Some(TagInfo { name: "Compression", format: Format::Default, unit: None, default: None }),
        (Context::Tiff, 0x10e) => Some(TagInfo { name: "ImageDescription", format: Format::Default, unit: None, default: None }),
        (Context::Tiff, 0x10f) => Some(TagInfo { name: "Make", format: Format::Default, unit: None, default: None }),
        (Context::Tiff, 0x110) => Some(TagInfo { name: "Model", format: Format::Default, unit: None, default: None }),
        (Context::Tiff, 0x112) => Some(TagInfo { name: "Orientation", format: Format::Default, unit: None, default: None }),
        (Context::Tiff, 0x11a) => Some(TagInfo { name: "XResolution", format: Format::Decimal, unit: Some(Unit::PixelsPerResolutionUnit), default: None }),
        (Context::Tiff, 0x11b) => Some(TagInfo { name: "YResolution", format: Format::Decimal, unit: Some(Unit::PixelsPerResolutionUnit), default: None }),
        (Context::Tiff, 0x128) => Some(TagInfo { name: "ResolutionUnit", format: Format::ResolutionUnit, unit: None, default: Some(DefaultValue::Short(2)) }),
        (Context::Tiff, 0x131) => Some(TagInfo { name: "Software", format: Format::Default, unit: None, default: None }),
        (Context::Tiff, 0x132) => Some(TagInfo { name: "DateTime", format: Format::Default, unit: None, default: None }),
        (Context::Tiff, 0x13b) => Some(TagInfo { name: "Artist", format: Format::Default, unit: None, default: None }),
        (Context::Tiff, 0x8298) => Some(TagInfo { name: "Copyright", format: Format::Default, unit: None, default: None }),
        (Context::Tiff, 0x8769) => Some(TagInfo { name: "ExifIFDPointer", format: Format::Default, unit: None, default: None }),
        (Context::Tiff, 0x8825) => Some(TagInfo { name: "GPSInfoIFDPointer", format: Format::Default, unit: None, default: None }),
        (Context::Exif, 0x829a) => Some(TagInfo { name: "ExposureTime", format: Format::Default, unit: Some(Unit::Seconds), default: None }),
        (Context::Exif, 0x829d) => Some(TagInfo { name: "FNumber", format: Format::Decimal, unit: Some(Unit::FNumber), default: None }),
        (Context::Exif, 0x9000) => Some(TagInfo { name: "ExifVersion", format: Format::ExifVersion, unit: None, default: None }),
        (Context::Exif, 0x9003) => Some(TagInfo { name: "DateTimeOriginal", format: Format::Default, unit: None, default: None }),
        (Context::Exif, 0x920a) => Some(TagInfo { name: "FocalLength", format: Format::Decimal, unit: Some(Unit::Millimeters), default: None }),
        (Context::Exif, 0x9401) => Some(TagInfo { name: "Humidity", format: Format::Decimal, unit: Some(Unit::Percent), default: None }),
        (Context::Exif, 0xa000) => Some(TagInfo { name: "FlashpixVersion", format: Format::ExifVersion, unit: None, default: None }),
        (Context::Exif, 0xa002) => Some(TagInfo { name: "PixelXDimension", format: Format::Default, unit: Some(Unit::Pixels), default: None }),
        (Context::Exif, 0xa003) => Some(TagInfo { name: "PixelYDimension", format: Format::Default, unit: Some(Unit::Pixels), default: None }),
        (Context::Exif, 0xa005) => Some(TagInfo { name: "InteropIFDPointer", format: Format::Default, unit: None, default: None }),
        (Context::Exif, 0xa405) => Some(TagInfo { name: "FocalLengthIn35mmFilm", format: Format::Default, unit: Some(Unit::Millimeters), default: None }),
        (Context::Exif, 0xa433) => Some(TagInfo { name: "LensMake", format: Format::Default, unit: None, default: None }),
        (Context::Exif, 0xa434) => Some(TagInfo { name: "LensModel", format: Format::Default, unit: None, default: None }),
        (Context::Gps, 0x0) => Some(TagInfo { name: "GPSVersionID", format: Format::Default, unit: None, default: None }),
        (Context::Gps, 0x1) => Some(TagInfo { name: "GPSLatitudeRef", format: Format::Default, unit: None, default: None }),
        (Context::Gps, 0x2) => Some(TagInfo { name: "GPSLatitude", format: Format::GpsDms, unit: Some(Unit::LatitudeRef), default: None }),
        (Context::Gps, 0x3) => Some(TagInfo { name: "GPSLongitudeRef", format: Format::Default, unit: None, default: None }),
        (Context::Gps, 0x4) => Some(TagInfo { name: "GPSLongitude", format: Format::GpsDms, unit: Some(Unit::LongitudeRef), default: None }),
        (Context::Gps, 0x5) => Some(TagInfo { name: "GPSAltitudeRef", format: Format::GpsAltitudeRef, unit: None, default: Some(DefaultValue::Byte(0)) }),
        (Context::Gps, 0x6) => Some(TagInfo { name: "GPSAltitude", format: Format::Decimal, unit: Some(Unit::MetersAltitudeRef), default: None }),
        (Context::Interop, 0x1) => Some(TagInfo { name: "InteroperabilityIndex", format: Format::Default, unit: None, default: None }),
        (Context::Interop, 0x2) => Some(TagInfo { name: "InteroperabilityVersion", format: Format::Default, unit: None, default: None }),
        (Context::FujiRaf, 0x100) => Some(TagInfo { name: "RawImageFullSize", format: Format::Default, unit: None, default: None }),
        (Context::FujiRaf, 0x110) => Some(TagInfo { name: "RawImageCropTopLeft", format: Format::Default, unit: None, default: None }),
        (Context::FujiRaf, 0x111) => Some(TagInfo { name: "RawImageCroppedSize", format: Format::Default, unit: None, default: None }),
        (Context::FujiRaf, 0x115) => Some(TagInfo { name: "RawImageAspectRatio", format: Format::Default, unit: None, default: None }),
        (Context::FujiRaf, 0x130) => Some(TagInfo { name: "FujiLayout", format: Format::Default, unit: None, default: None }),
        (Context::FujiRaf, 0x131) => Some(TagInfo { name: "XTransLayout", format: Format::Default, unit: None, default: None }),
        (Context::FujiRaf, 0x2ff0) => Some(TagInfo { name: "WB_GRGBLevels", format: Format::Default, unit: None, default: None }),
        (Context::FujiRaf, 0xc000) => Some(TagInfo { name: "RAFData", format: Format::Default, unit: None, default: None }),
        _ => None,
    }
}

impl Tag {
    /// Returns what this library knows of the tag.
    pub fn info(self) -> (r: Option<TagInfo>)
        ensures
            r == spec_tag_info(self),
    {
        match (self.0, self.1) {
            (Context::Tiff, 0x100) => Some(TagInfo { name: "ImageWidth", format: Format::Default, unit: Some(Unit::Pixels), default: None }),
            (Context::Tiff, 0x101) => Some(TagInfo { name: "ImageLength", format: Format::Default, unit: Some(Unit::Pixels), default: None }),
            (Context::Tiff, 0x102) => Some(TagInfo { name: "BitsPerSample", format: Format::Default, unit: None, default: None }),
            (Context::Tiff, 0x103) => Some(TagInfo { name: "Compression", format: Format::Default, unit: None, default: None }),
            (Context::Tiff, 0x10e) => Some(TagInfo { name: "ImageDescription", format: Format::Default, unit: None, default: None }),
            (Context::Tiff, 0x10f) => Some(TagInfo { name: "Make", format: Format::Default, unit: None, default: None }),
            (Context::Tiff, 0x110) => Some(TagInfo { name: "Model", format: Format::Default, unit: None, default: None }),
            (Context::Tiff, 0x112) => Some(TagInfo { name: "Orientation", format: Format::Default, unit: None, default: None }),
            (Context::Tiff, 0x11a) => Some(TagInfo { name: "XResolution", format: Format::Decimal, unit: Some(Unit::PixelsPerResolutionUnit), default: None }),
            (Context::Tiff, 0x11b) => Some(TagInfo { name: "YResolution", format: Format::Decimal, unit: Some(Unit::PixelsPerResolutionUnit), default: None }),
            (Context::Tiff, 0x128) => Some(TagInfo { name: "ResolutionUnit", format: Format::ResolutionUnit, unit: None, default: Some(DefaultValue::Short(2)) }),
            (Context::Tiff, 0x131) => Some(TagInfo { name: "Software", format: Format::Default, unit: None, default: None }),
            (Context::Tiff, 0x132) => Some(TagInfo { name: "DateTime", format: Format::Default, unit: None, default: None }),
            (Context::Tiff, 0x13b) => Some(TagInfo { name: "Artist", format: Format::Default, unit: None, default: None }),
            (Context::Tiff, 0x8298) => Some(TagInfo { name: "Copyright", format: Format::Default, unit: None, default: None }),
            (Context::Tiff, 0x8769) => Some(TagInfo { name: "ExifIFDPointer", format: Format::Default, unit: None, default: None }),
            (Context::Tiff, 0x8825) => Some(TagInfo { name: "GPSInfoIFDPointer", format: Format::Default, unit: None, default: None }),
            (Context::Exif, 0x829a) => Some(TagInfo { name: "ExposureTime", format: Format::Default, unit: Some(Unit::Seconds), default: None }),
            (Context::Exif, 0x829d) => Some(TagInfo { name: "FNumber", format: Format::Decimal, unit: Some(Unit::FNumber), default: None }),
            (Context::Exif, 0x9000) => Some(TagInfo { name: "ExifVersion", format: Format::ExifVersion, unit: None, default: None }),
            (Context::Exif, 0x9003) => Some(TagInfo { name: "DateTimeOriginal", format: Format::Default, unit: None, default: None }),
            (Context::Exif, 0x920a) => Some(TagInfo { name: "FocalLength", format: Format::Decimal, unit: Some(Unit::Millimeters), default: None }),
            (Context::Exif, 0x9401) => Some(TagInfo { name: "Humidity", format: Format::Decimal, unit: Some(Unit::Percent), default: None }),
            (Context::Exif, 0xa000) => Some(TagInfo { name: "FlashpixVersion", format: Format::ExifVersion, unit: None, default: None }),
            (Context::Exif, 0xa002) => Some(TagInfo { name: "PixelXDimension", format: Format::Default, unit: Some(Unit::Pixels), default: None }),
            (Context::Exif, 0xa003) => Some(TagInfo { name: "PixelYDimension", format: Format::Default, unit: Some(Unit::Pixels), default: None }),
            (Context::Exif, 0xa005) => Some(TagInfo { name: "InteropIFDPointer", format: Format::Default, unit: None, default: None }),
            (Context::Exif, 0xa405) => Some(TagInfo { name: "FocalLengthIn35mmFilm", format: Format::Default, unit: Some(Unit::Millimeters), default: None }),
            (Context::Exif, 0xa433) => Some(TagInfo { name: "LensMake", format: Format::Default, unit: None, default: None }),
            (Context::Exif, 0xa434) => Some(TagInfo { name: "LensModel", format: Format::Default, unit: None, default: None }),
            (Context::Gps, 0x0) => Some(TagInfo { name: "GPSVersionID", format: Format::Default, unit: None, default: None }),
            (Context::Gps, 0x1) => Some(TagInfo { name: "GPSLatitudeRef", format: Format::Default, unit: None, default: None }),
            (Context::Gps, 0x2) => Some(TagInfo { name: "GPSLatitude", format: Format::GpsDms, unit: Some(Unit::LatitudeRef), default: None }),
            (Context::Gps, 0x3) => Some(TagInfo { name: "GPSLongitudeRef", format: Format::Default, unit: None, default: None }),
            (Context::Gps, 0x4) => Some(TagInfo { name: "GPSLongitude", format: Format::GpsDms, unit: Some(Unit::LongitudeRef), default: None }),
            (Context::Gps, 0x5) => Some(TagInfo { name: "GPSAltitudeRef", format: Format::GpsAltitudeRef, unit: None, default: Some(DefaultValue::Byte(0)) }),
            (Context::Gps, 0x6) => Some(TagInfo { name: "GPSAltitude", format: Format::Decimal, unit: Some(Unit::MetersAltitudeRef), default: None }),
            (Context::Interop, 0x1) => Some(TagInfo { name: "InteroperabilityIndex", format: Format::Default, unit: None, default: None }),
            (Context::Interop, 0x2) => Some(TagInfo { name: "InteroperabilityVersion", format: Format::Default, unit: None, default: None }),
            (Context::FujiRaf, 0x100) => Some(TagInfo { name: "RawImageFullSize", format: Format::Default, unit: None, default: None }),
            (Context::FujiRaf, 0x110) => Some(TagInfo { name: "RawImageCropTopLeft", format: Format::Default, unit: None, default: None }),
            (Context::FujiRaf, 0x111) => Some(TagInfo { name: "RawImageCroppedSize", format: Format::Default, unit: None, default: None }),
            (Context::FujiRaf, 0x115) => Some(TagInfo { name: "RawImageAspectRatio", format: Format::Default, unit: None, default: None }),
            (Context::FujiRaf, 0x130) => Some(TagInfo { name: "FujiLayout", format: Format::Default, unit: None, default: None }),
            (Context::FujiRaf, 0x131) => Some(TagInfo { name: "XTransLayout", format: Format::Default, unit: None, default: None }),
            (Context::FujiRaf, 0x2ff0) => Some(TagInfo { name: "WB_GRGBLevels", format: Format::Default, unit: None, default: None }),
            (Context::FujiRaf, 0xc000) => Some(TagInfo { name: "RAFData", format: Format::Default, unit: None, default: None }),
            _ => None,
        }
    }

    /// Returns the context of the tag.
    pub fn context(self) -> (r: Context)
        ensures
            r == self.0,
    {
        self.0
    }

    /// Returns the number of the tag.
    pub fn number(self) -> (r: u16)
        ensures
            r == self.1,
    {
        self.1
    }

    #[allow(non_snake_case)]
    pub fn ImageWidth() -> (r: Tag)
        ensures
            r == Tag(Context::Tiff, 0x100),
    {
        Tag(Context::Tiff, 0x100)
    }

    #[allow(non_snake_case)]
    pub fn ImageLength() -> (r: Tag)
        ensures
            r == Tag(Context::Tiff, 0x101),
    {
        Tag(Context::Tiff, 0x101)
    }

    #[allow(non_snake_case)]
    pub fn BitsPerSample() -> (r: Tag)
        ensures
            r == Tag(Context::Tiff, 0x102),
    {
        Tag(Context::Tiff, 0x102)
    }

    #[allow(non_snake_case)]
    pub fn Compression() -> (r: Tag)
        ensures
            r == Tag(Context::Tiff, 0x103),
    {
        Tag(Context::Tiff, 0x103)
    }

    #[allow(non_snake_case)]
    pub fn ImageDescription() -> (r: Tag)
        ensures
            r == Tag(Context::Tiff, 0x10e),
    {
        Tag(Context::Tiff, 0x10e)
    }

    #[allow(non_snake_case)]
    pub fn Make() -> (r: Tag)
        ensures
            r == Tag(Context::Tiff, 0x10f),
    {
        Tag(Context::Tiff, 0x10f)
    }

    #[allow(non_snake_case)]
    pub fn Model() -> (r: Tag)
        ensures
            r == Tag(Context::Tiff, 0x110),
    {
        Tag(Context::Tiff, 0x110)
    }

    #[allow(non_snake_case)]
    pub fn Orientation() -> (r: Tag)
        ensures
            r == Tag(Context::Tiff, 0x112),
    {
        Tag(Context::Tiff, 0x112)
    }

    #[allow(non_snake_case)]
    pub fn XResolution() -> (r: Tag)
        ensures
            r == Tag(Context::Tiff, 0x11a),
    {
        Tag(Context::Tiff, 0x11a)
    }

    #[allow(non_snake_case)]
    pub fn YResolution() -> (r: Tag)
        ensures
            r == Tag(Context::Tiff, 0x11b),
    {
        Tag(Context::Tiff, 0x11b)
    }

    #[allow(non_snake_case)]
    pub fn ResolutionUnit() -> (r: Tag)
        ensures
            r == Tag(Context::Tiff, 0x128),
    {
        Tag(Context::Tiff, 0x128)
    }

    #[allow(non_snake_case)]
    pub fn Software() -> (r: Tag)
        ensures
            r == Tag(Context::Tiff, 0x131),
    {
        Tag(Context::Tiff, 0x131)
    }

    #[allow(non_snake_case)]
    pub fn DateTime() -> (r: Tag)
        ensures
            r == Tag(Context::Tiff, 0x132),
    {
        Tag(Context::Tiff, 0x132)
    }

    #[allow(non_snake_case)]
    pub fn Artist() -> (r: Tag)
        ensures
            r == Tag(Context::Tiff, 0x13b),
    {
        Tag(Context::Tiff, 0x13b)
    }

    #[allow(non_snake_case)]
    pub fn Copyright() -> (r: Tag)
        ensures
            r == Tag(Context::Tiff, 0x8298),
    {
        Tag(Context::Tiff, 0x8298)
    }

    #[allow(non_snake_case)]
    pub fn ExifIFDPointer() -> (r: Tag)
        ensures
            r == Tag(Context::Tiff, 0x8769),
    {
        Tag(Context::Tiff, 0x8769)
    }

    #[allow(non_snake_case)]
    pub fn GPSInfoIFDPointer() -> (r: Tag)
        ensures
            r == Tag(Context::Tiff, 0x8825),
    {
        Tag(Context::Tiff, 0x8825)
    }

    #[allow(non_snake_case)]
    pub fn ExposureTime() -> (r: Tag)
        ensures
            r == Tag(Context::Exif, 0x829a),
    {
        Tag(Context::Exif, 0x829a)
    }

    #[allow(non_snake_case)]
    pub fn FNumber() -> (r: Tag)
        ensures
            r == Tag(Context::Exif, 0x829d),
    {
        Tag(Context::Exif, 0x829d)
    }

    #[allow(non_snake_case)]
    pub fn ExifVersion() -> (r: Tag)
        ensures
            r == Tag(Context::Exif, 0x9000),
    {
        Tag(Context::Exif, 0x9000)
    }

    #[allow(non_snake_case)]
    pub fn DateTimeOriginal() -> (r: Tag)
        ensures
            r == Tag(Context::Exif, 0x9003),
    {
        Tag(Context::Exif, 0x9003)
    }

    #[allow(non_snake_case)]
    pub fn FocalLength() -> (r: Tag)
        ensures
            r == Tag(Context::Exif, 0x920a),
    {
        Tag(Context::Exif, 0x920a)
    }

    #[allow(non_snake_case)]
    pub fn Humidity() -> (r: Tag)
        ensures
            r == Tag(Context::Exif, 0x9401),
    {
        Tag(Context::Exif, 0x9401)
    }

    #[allow(non_snake_case)]
    pub fn FlashpixVersion() -> (r: Tag)
        ensures
            r == Tag(Context::Exif, 0xa000),
    {
        Tag(Context::Exif, 0xa000)
    }

    #[allow(non_snake_case)]
    pub fn PixelXDimension() -> (r: Tag)
        ensures
            r == Tag(Context::Exif, 0xa002),
    {
        Tag(Context::Exif, 0xa002)
    }

    #[allow(non_snake_case)]
    pub fn PixelYDimension() -> (r: Tag)
        ensures
            r == Tag(Context::Exif, 0xa003),
    {
        Tag(Context::Exif, 0xa003)
    }

    #[allow(non_snake_case)]
    pub fn InteropIFDPointer() -> (r: Tag)
        ensures
            r == Tag(Context::Exif, 0xa005),
    {
        Tag(Context::Exif, 0xa005)
    }

    #[allow(non_snake_case)]
    pub fn FocalLengthIn35mmFilm() -> (r: Tag)
        ensures
            r == Tag(Context::Exif, 0xa405),
    {
        Tag(Context::Exif, 0xa405)
    }

    #[allow(non_snake_case)]
    pub fn LensMake() -> (r: Tag)
        ensures
            r == Tag(Context::Exif, 0xa433),
    {
        Tag(Context::Exif, 0xa433)
    }

    #[allow(non_snake_case)]
    pub fn LensModel() -> (r: Tag)
        ensures
            r == Tag(Context::Exif, 0xa434),
    {
        Tag(Context::Exif, 0xa434)
    }

    #[allow(non_snake_case)]
    pub fn GPSVersionID() -> (r: Tag)
        ensures
            r == Tag(Context::Gps, 0x0),
    {
        Tag(Context::Gps, 0x0)
    }

    #[allow(non_snake_case)]
    pub fn GPSLatitudeRef() -> (r: Tag)
        ensures
            r == Tag(Context::Gps, 0x1),
    {
        Tag(Context::Gps, 0x1)
    }

    #[allow(non_snake_case)]
    pub fn GPSLatitude() -> (r: Tag)
        ensures
            r == Tag(Context::Gps, 0x2),
    {
        Tag(Context::Gps, 0x2)
    }

    #[allow(non_snake_case)]
    pub fn GPSLongitudeRef() -> (r: Tag)
        ensures
            r == Tag(Context::Gps, 0x3),
    {
        Tag(Context::Gps, 0x3)
    }

    #[allow(non_snake_case)]
    pub fn GPSLongitude() -> (r: Tag)
        ensures
            r == Tag(Context::Gps, 0x4),
    {
        Tag(Context::Gps, 0x4)
    }

    #[allow(non_snake_case)]
    pub fn GPSAltitudeRef() -> (r: Tag)
        ensures
            r == Tag(Context::Gps, 0x5),
    {
        Tag(Context::Gps, 0x5)
    }

    #[allow(non_snake_case)]
    pub fn GPSAltitude() -> (r: Tag)
        ensures
            r == Tag(Context::Gps, 0x6),
    {
        Tag(Context::Gps, 0x6)
    }

    #[allow(non_snake_case)]
    pub fn InteroperabilityIndex() -> (r: Tag)
        ensures
            r == Tag(Context::Interop, 0x1),
    {
        Tag(Context::Interop, 0x1)
    }

    #[allow(non_snake_case)]
    pub fn InteroperabilityVersion() -> (r: Tag)
        ensures
            r == Tag(Context::Interop, 0x2),
    {
        Tag(Context::Interop, 0x2)
    }

    #[allow(non_snake_case)]
    pub fn RawImageFullSize() -> (r: Tag)
        ensures
            r == Tag(Context::FujiRaf, 0x100),
    {
        Tag(Context::FujiRaf, 0x100)
    }

    #[allow(non_snake_case)]
    pub fn RawImageCropTopLeft() -> (r: Tag)
        ensures
            r == Tag(Context::FujiRaf, 0x110),
    {
        Tag(Context::FujiRaf, 0x110)
    }

    #[allow(non_snake_case)]
    pub fn RawImageCroppedSize() -> (r: Tag)
        ensures
            r == Tag(Context::FujiRaf, 0x111),
    {
        Tag(Context::FujiRaf, 0x111)
    }

    #[allow(non_snake_case)]
    pub fn RawImageAspectRatio() -> (r: Tag)
        ensures
            r == Tag(Context::FujiRaf, 0x115),
    {
        Tag(Context::FujiRaf, 0x115)
    }

    #[allow(non_snake_case)]
    pub fn FujiLayout() -> (r: Tag)
        ensures
            r == Tag(Context::FujiRaf, 0x130),
    {
        Tag(Context::FujiRaf, 0x130)
    }

    #[allow(non_snake_case)]
    pub fn XTransLayout() -> (r: Tag)
        ensures
            r == Tag(Context::FujiRaf, 0x131),
    {
        Tag(Context::FujiRaf, 0x131)
    }

    #[allow(non_snake_case)]
    pub fn WB_GRGBLevels() -> (r: Tag)
        ensures
            r == Tag(Context::FujiRaf, 0x2ff0),
    {
        Tag(Context::FujiRaf, 0x2ff0)
    }

    #[allow(non_snake_case)]
    pub fn RAFData() -> (r: Tag)
        ensures
            r == Tag(Context::FujiRaf, 0xc000),
    {
        Tag(Context::FujiRaf, 0xc000)
    }
}

} // verus!
