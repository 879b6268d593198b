use vstd::prelude::*;

use crate::endian::{load_u16, load_u32, spec_u16, spec_u32};
use crate::error::Error;
use crate::exif::Exif;
use crate::ifd::{is_final, Field, FieldView, IfdEntry, In};
use crate::tag::{Context, Tag};
use crate::tiff::{prepend, raw_fields, resolve_fields};
use crate::value::{Value, ValueView};
use crate::MutOnce;

verus! {

/// Tags of the maker notes of Fujifilm RAF files.
#[derive(Debug, Clone, Copy, PartialEq, Eq, Structural)]
#[allow(non_camel_case_types)]
pub enum RafMakernotes {
    Version,
    InternalSerialNumber,
    Quality,
    Sharpness,
    WhiteBalance,
    Saturation,
    Contrast,
    ColorTemperature,
    Contrast2,
    WhiteBalanceFineTune,
    NoiseReduction,
    NoiseReduction2,
    FujiFlashMode,
    FlashExposureComp,
    Macro,
    FocusMode,
    AFMode,
    FocusPixel,
    PrioritySettings,
    FocusSettings,
    AFCSettings,
    SlowSync,
    PictureMode,
    ExposureCount,
    EXRAuto,
    EXRMode,
    ShadowTone,
    HighlightTone,
    DigitalZoom,
    LensModulationOptimizer,
    GrainEffect,
    ColorChromeEffect,
    BWAdjustment,
    CropMode,
    ColorChromeFXBlue,
    ShutterType,
    AutoBracketing,
    SequenceNumber,
    DriveSettings,
    PixelShiftShots,
    PixelShiftOffset,
    PanoramaAngle,
    PanoramaDirection,
    AdvancedFilter,
    ColorMode,
    BlurWarning,
    FocusWarning,
    ExposureWarning,
    GEImageSize,
    DynamicRange,
    FilmMode,
    DynamicRangeSetting,
    DevelopmentDynamicRange,
    MinFocalLength,
    MaxFocalLength,
    MaxApertureAtMinFocal,
    MaxApertureAtMaxFocal,
    AutoDynamicRange,
    ImageStabilization,
    SceneRecognition,
    Rating,
    ImageGeneration,
    ImageCount,
    DRangePriority,
    DRangePriorityAuto,
    DRangePriorityFixed,
    FlickerReduction,
    VideoRecordingMode,
    PeripheralLighting,
    VideoCompression,
    FrameRate,
    FrameWidth,
    FrameHeight,
    FullHDHighSpeedRec,
    FaceElementSelected,
    FacesDetected,
    FacePositions,
    NumFaceElements,
    FaceElementTypes,
    FaceElementPositions,
    FaceRecInfo,
    FileSource,
    OrderNumber,
    FrameNumber,
    Parallax,
}

/// The tag number of each variant of `RafMakernotes`.
pub open spec fn spec_rafmakernotes_number(x: RafMakernotes) -> u16 {
    match x {
        RafMakernotes::Version => 0x0000,
        RafMakernotes::InternalSerialNumber => 0x0010,
        RafMakernotes::Quality => 0x1000,
        RafMakernotes::Sharpness => 0x1001,
        RafMakernotes::WhiteBalance => 0x1002,
        RafMakernotes::Saturation => 0x1003,
        RafMakernotes::Contrast => 0x1004,
        RafMakernotes::ColorTemperature => 0x1005,
        RafMakernotes::Contrast2 => 0x1006,
        RafMakernotes::WhiteBalanceFineTune => 0x100a,
        RafMakernotes::NoiseReduction => 0x100b,
        RafMakernotes::NoiseReduction2 => 0x100e,
        RafMakernotes::FujiFlashMode => 0x1010,
        RafMakernotes::FlashExposureComp => 0x1011,
        RafMakernotes::Macro => 0x1020,
        RafMakernotes::FocusMode => 0x1021,
        RafMakernotes::AFMode => 0x1022,
        RafMakernotes::FocusPixel => 0x1023,
        RafMakernotes::PrioritySettings => 0x102b,
        RafMakernotes::FocusSettings => 0x102d,
        RafMakernotes::AFCSettings => 0x102e,
        RafMakernotes::SlowSync => 0x1030,
        RafMakernotes::PictureMode => 0x1031,
        RafMakernotes::ExposureCount => 0x1032,
        RafMakernotes::EXRAuto => 0x1033,
        RafMakernotes::EXRMode => 0x1034,
        RafMakernotes::ShadowTone => 0x1040,
        RafMakernotes::HighlightTone => 0x1041,
        RafMakernotes::DigitalZoom => 0x1044,
        RafMakernotes::LensModulationOptimizer => 0x1045,
        RafMakernotes::GrainEffect => 0x1047,
        RafMakernotes::ColorChromeEffect => 0x1048,
        RafMakernotes::BWAdjustment => 0x1049,
        RafMakernotes::CropMode => 0x104d,
        RafMakernotes::ColorChromeFXBlue => 0x104e,
        RafMakernotes::ShutterType => 0x1050,
        RafMakernotes::AutoBracketing => 0x1100,
        RafMakernotes::SequenceNumber => 0x1101,
        RafMakernotes::DriveSettings => 0x1103,
        RafMakernotes::PixelShiftShots => 0x1105,
        RafMakernotes::PixelShiftOffset => 0x1106,
        RafMakernotes::PanoramaAngle => 0x1153,
        RafMakernotes::PanoramaDirection => 0x1154,
        RafMakernotes::AdvancedFilter => 0x1201,
        RafMakernotes::ColorMode => 0x1210,
        RafMakernotes::BlurWarning => 0x1300,
        RafMakernotes::FocusWarning => 0x1301,
        RafMakernotes::ExposureWarning => 0x1302,
        RafMakernotes::GEImageSize => 0x1304,
        RafMakernotes::DynamicRange => 0x1400,
        RafMakernotes::FilmMode => 0x1401,
        RafMakernotes::DynamicRangeSetting => 0x1402,
        RafMakernotes::DevelopmentDynamicRange => 0x1403,
        RafMakernotes::MinFocalLength => 0x1404,
        RafMakernotes::MaxFocalLength => 0x1405,
        RafMakernotes::MaxApertureAtMinFocal => 0x1406,
        RafMakernotes::MaxApertureAtMaxFocal => 0x1407,
        RafMakernotes::AutoDynamicRange => 0x140b,
        RafMakernotes::ImageStabilization => 0x1422,
        RafMakernotes::SceneRecognition => 0x1425,
        RafMakernotes::Rating => 0x1431,
        RafMakernotes::ImageGeneration => 0x1436,
        RafMakernotes::ImageCount => 0x1438,
        RafMakernotes::DRangePriority => 0x1443,
        RafMakernotes::DRangePriorityAuto => 0x1444,
        RafMakernotes::DRangePriorityFixed => 0x1445,
        RafMakernotes::FlickerReduction => 0x1446,
        RafMakernotes::VideoRecordingMode => 0x3803,
        RafMakernotes::PeripheralLighting => 0x3804,
        RafMakernotes::VideoCompression => 0x3806,
        RafMakernotes::FrameRate => 0x3820,
        RafMakernotes::FrameWidth => 0x3821,
        RafMakernotes::FrameHeight => 0x3822,
        RafMakernotes::FullHDHighSpeedRec => 0x3824,
        RafMakernotes::FaceElementSelected => 0x4005,
        RafMakernotes::FacesDetected => 0x4100,
        RafMakernotes::FacePositions => 0x4103,
        RafMakernotes::NumFaceElements => 0x4200,
        RafMakernotes::FaceElementTypes => 0x4201,
        RafMakernotes::FaceElementPositions => 0x4203,
        RafMakernotes::FaceRecInfo => 0x4282,
        RafMakernotes::FileSource => 0x8000,
        RafMakernotes::OrderNumber => 0x8002,
        RafMakernotes::FrameNumber => 0x8003,
        RafMakernotes::Parallax => 0xb211,
    }
}

impl RafMakernotes {
    /// Returns the tag number of the variant.
    pub fn number(self) -> (r: u16)
        ensures
            r == spec_rafmakernotes_number(self),
    {
        match self {
            RafMakernotes::Version => 0x0000,
            RafMakernotes::InternalSerialNumber => 0x0010,
            RafMakernotes::Quality => 0x1000,
            RafMakernotes::Sharpness => 0x1001,
            RafMakernotes::WhiteBalance => 0x1002,
            RafMakernotes::Saturation => 0x1003,
            RafMakernotes::Contrast => 0x1004,
            RafMakernotes::ColorTemperature => 0x1005,
            RafMakernotes::Contrast2 => 0x1006,
            RafMakernotes::WhiteBalanceFineTune => 0x100a,
            RafMakernotes::NoiseReduction => 0x100b,
            RafMakernotes::NoiseReduction2 => 0x100e,
            RafMakernotes::FujiFlashMode => 0x1010,
            RafMakernotes::FlashExposureComp => 0x1011,
            RafMakernotes::Macro => 0x1020,
            RafMakernotes::FocusMode => 0x1021,
            RafMakernotes::AFMode => 0x1022,
            RafMakernotes::FocusPixel => 0x1023,
            RafMakernotes::PrioritySettings => 0x102b,
            RafMakernotes::FocusSettings => 0x102d,
            RafMakernotes::AFCSettings => 0x102e,
            RafMakernotes::SlowSync => 0x1030,
            RafMakernotes::PictureMode => 0x1031,
            RafMakernotes::ExposureCount => 0x1032,
            RafMakernotes::EXRAuto => 0x1033,
            RafMakernotes::EXRMode => 0x1034,
            RafMakernotes::ShadowTone => 0x1040,
            RafMakernotes::HighlightTone => 0x1041,
            RafMakernotes::DigitalZoom => 0x1044,
            RafMakernotes::LensModulationOptimizer => 0x1045,
            RafMakernotes::GrainEffect => 0x1047,
            RafMakernotes::ColorChromeEffect => 0x1048,
            RafMakernotes::BWAdjustment => 0x1049,
            RafMakernotes::CropMode => 0x104d,
            RafMakernotes::ColorChromeFXBlue => 0x104e,
            RafMakernotes::ShutterType => 0x1050,
            RafMakernotes::AutoBracketing => 0x1100,
            RafMakernotes::SequenceNumber => 0x1101,
            RafMakernotes::DriveSettings => 0x1103,
            RafMakernotes::PixelShiftShots => 0x1105,
            RafMakernotes::PixelShiftOffset => 0x1106,
            RafMakernotes::PanoramaAngle => 0x1153,
            RafMakernotes::PanoramaDirection => 0x1154,
            RafMakernotes::AdvancedFilter => 0x1201,
            RafMakernotes::ColorMode => 0x1210,
            RafMakernotes::BlurWarning => 0x1300,
            RafMakernotes::FocusWarning => 0x1301,
            RafMakernotes::ExposureWarning => 0x1302,
            RafMakernotes::GEImageSize => 0x1304,
            RafMakernotes::DynamicRange => 0x1400,
            RafMakernotes::FilmMode => 0x1401,
            RafMakernotes::DynamicRangeSetting => 0x1402,
            RafMakernotes::DevelopmentDynamicRange => 0x1403,
            RafMakernotes::MinFocalLength => 0x1404,
            RafMakernotes::MaxFocalLength => 0x1405,
            RafMakernotes::MaxApertureAtMinFocal => 0x1406,
            RafMakernotes::MaxApertureAtMaxFocal => 0x1407,
            RafMakernotes::AutoDynamicRange => 0x140b,
            RafMakernotes::ImageStabilization => 0x1422,
            RafMakernotes::SceneRecognition => 0x1425,
            RafMakernotes::Rating => 0x1431,
            RafMakernotes::ImageGeneration => 0x1436,
            RafMakernotes::ImageCount => 0x1438,
            RafMakernotes::DRangePriority => 0x1443,
            RafMakernotes::DRangePriorityAuto => 0x1444,
            RafMakernotes::DRangePriorityFixed => 0x1445,
            RafMakernotes::FlickerReduction => 0x1446,
            RafMakernotes::VideoRecordingMode => 0x3803,
            RafMakernotes::PeripheralLighting => 0x3804,
            RafMakernotes::VideoCompression => 0x3806,
            RafMakernotes::FrameRate => 0x3820,
            RafMakernotes::FrameWidth => 0x3821,
            RafMakernotes::FrameHeight => 0x3822,
            RafMakernotes::FullHDHighSpeedRec => 0x3824,
            RafMakernotes::FaceElementSelected => 0x4005,
            RafMakernotes::FacesDetected => 0x4100,
            RafMakernotes::FacePositions => 0x4103,
            RafMakernotes::NumFaceElements => 0x4200,
            RafMakernotes::FaceElementTypes => 0x4201,
            RafMakernotes::FaceElementPositions => 0x4203,
            RafMakernotes::FaceRecInfo => 0x4282,
            RafMakernotes::FileSource => 0x8000,
            RafMakernotes::OrderNumber => 0x8002,
            RafMakernotes::FrameNumber => 0x8003,
            RafMakernotes::Parallax => 0xb211,
        }
    }

    /// Returns the variant with the given tag number, if there is one.
    pub fn n(value: u16) -> (r: Option<RafMakernotes>)
        ensures
            match r {
                Some(x) => spec_rafmakernotes_number(x) == value,
                None => forall|x: RafMakernotes| spec_rafmakernotes_number(x) != value,
            },
    {
        match value {
            0x0000 => Some(RafMakernotes::Version),
            0x0010 => Some(RafMakernotes::InternalSerialNumber),
            0x1000 => Some(RafMakernotes::Quality),
            0x1001 => Some(RafMakernotes::Sharpness),
            0x1002 => Some(RafMakernotes::WhiteBalance),
            0x1003 => Some(RafMakernotes::Saturation),
            0x1004 => Some(RafMakernotes::Contrast),
            0x1005 => Some(RafMakernotes::ColorTemperature),
            0x1006 => Some(RafMakernotes::Contrast2),
            0x100a => Some(RafMakernotes::WhiteBalanceFineTune),
            0x100b => Some(RafMakernotes::NoiseReduction),
            0x100e => Some(RafMakernotes::NoiseReduction2),
            0x1010 => Some(RafMakernotes::FujiFlashMode),
            0x1011 => Some(RafMakernotes::FlashExposureComp),
            0x1020 => Some(RafMakernotes::Macro),
            0x1021 => Some(RafMakernotes::FocusMode),
            0x1022 => Some(RafMakernotes::AFMode),
            0x1023 => Some(RafMakernotes::FocusPixel),
            0x102b => Some(RafMakernotes::PrioritySettings),
            0x102d => Some(RafMakernotes::FocusSettings),
            0x102e => Some(RafMakernotes::AFCSettings),
            0x1030 => Some(RafMakernotes::SlowSync),
            0x1031 => Some(RafMakernotes::PictureMode),
            0x1032 => Some(RafMakernotes::ExposureCount),
            0x1033 => Some(RafMakernotes::EXRAuto),
            0x1034 => Some(RafMakernotes::EXRMode),
            0x1040 => Some(RafMakernotes::ShadowTone),
            0x1041 => Some(RafMakernotes::HighlightTone),
            0x1044 => Some(RafMakernotes::DigitalZoom),
            0x1045 => Some(RafMakernotes::LensModulationOptimizer),
            0x1047 => Some(RafMakernotes::GrainEffect),
            0x1048 => Some(RafMakernotes::ColorChromeEffect),
            0x1049 => Some(RafMakernotes::BWAdjustment),
            0x104d => Some(RafMakernotes::CropMode),
            0x104e => Some(RafMakernotes::ColorChromeFXBlue),
            0x1050 => Some(RafMakernotes::ShutterType),
            0x1100 => Some(RafMakernotes::AutoBracketing),
            0x1101 => Some(RafMakernotes::SequenceNumber),
            0x1103 => Some(RafMakernotes::DriveSettings),
            0x1105 => Some(RafMakernotes::PixelShiftShots),
            0x1106 => Some(RafMakernotes::PixelShiftOffset),
            0x1153 => Some(RafMakernotes::PanoramaAngle),
            0x1154 => Some(RafMakernotes::PanoramaDirection),
            0x1201 => Some(RafMakernotes::AdvancedFilter),
            0x1210 => Some(RafMakernotes::ColorMode),
            0x1300 => Some(RafMakernotes::BlurWarning),
            0x1301 => Some(RafMakernotes::FocusWarning),
            0x1302 => Some(RafMakernotes::ExposureWarning),
            0x1304 => Some(RafMakernotes::GEImageSize),
            0x1400 => Some(RafMakernotes::DynamicRange),
            0x1401 => Some(RafMakernotes::FilmMode),
            0x1402 => Some(RafMakernotes::DynamicRangeSetting),
            0x1403 => Some(RafMakernotes::DevelopmentDynamicRange),
            0x1404 => Some(RafMakernotes::MinFocalLength),
            0x1405 => Some(RafMakernotes::MaxFocalLength),
            0x1406 => Some(RafMakernotes::MaxApertureAtMinFocal),
            0x1407 => Some(RafMakernotes::MaxApertureAtMaxFocal),
            0x140b => Some(RafMakernotes::AutoDynamicRange),
            0x1422 => Some(RafMakernotes::ImageStabilization),
            0x1425 => Some(RafMakernotes::SceneRecognition),
            0x1431 => Some(RafMakernotes::Rating),
            0x1436 => Some(RafMakernotes::ImageGeneration),
            0x1438 => Some(RafMakernotes::ImageCount),
            0x1443 => Some(RafMakernotes::DRangePriority),
            0x1444 => Some(RafMakernotes::DRangePriorityAuto),
            0x1445 => Some(RafMakernotes::DRangePriorityFixed),
            0x1446 => Some(RafMakernotes::FlickerReduction),
            0x3803 => Some(RafMakernotes::VideoRecordingMode),
            0x3804 => Some(RafMakernotes::PeripheralLighting),
            0x3806 => Some(RafMakernotes::VideoCompression),
            0x3820 => Some(RafMakernotes::FrameRate),
            0x3821 => Some(RafMakernotes::FrameWidth),
            0x3822 => Some(RafMakernotes::FrameHeight),
            0x3824 => Some(RafMakernotes::FullHDHighSpeedRec),
            0x4005 => Some(RafMakernotes::FaceElementSelected),
            0x4100 => Some(RafMakernotes::FacesDetected),
            0x4103 => Some(RafMakernotes::FacePositions),
            0x4200 => Some(RafMakernotes::NumFaceElements),
            0x4201 => Some(RafMakernotes::FaceElementTypes),
            0x4203 => Some(RafMakernotes::FaceElementPositions),
            0x4282 => Some(RafMakernotes::FaceRecInfo),
            0x8000 => Some(RafMakernotes::FileSource),
            0x8002 => Some(RafMakernotes::OrderNumber),
            0x8003 => Some(RafMakernotes::FrameNumber),
            0xb211 => Some(RafMakernotes::Parallax),
            _ => None,
        }
    }
}

/// Tags of the additional directory of Fujifilm RAF files.
#[derive(Debug, Clone, Copy, PartialEq, Eq, Structural)]
#[allow(non_camel_case_types)]
pub enum FujiIFD {
    FujiIFD,
    RawImageFullWidth,
    RawImageFullHeight,
    BitsPerSample,
    StripOffsets,
    StripByteCounts,
    BlackLevel,
    GeometricDistortionParams,
    WB_GRBLevelsStandard,
    WB_GRBLevelsAuto,
    WB_GRBLevels,
    ChromaticAberrationParams,
    VignettingParams,
}

/// The tag number of each variant of `FujiIFD`.
pub open spec fn spec_fujiifd_number(x: FujiIFD) -> u16 {
    match x {
        FujiIFD::FujiIFD => 0xf000,
        FujiIFD::RawImageFullWidth => 0xf001,
        FujiIFD::RawImageFullHeight => 0xf002,
        FujiIFD::BitsPerSample => 0xf003,
        FujiIFD::StripOffsets => 0xf007,
        FujiIFD::StripByteCounts => 0xf008,
        FujiIFD::BlackLevel => 0xf00a,
        FujiIFD::GeometricDistortionParams => 0xf00b,
        FujiIFD::WB_GRBLevelsStandard => 0xf00c,
        FujiIFD::WB_GRBLevelsAuto => 0xf00d,
        FujiIFD::WB_GRBLevels => 0xf00e,
        FujiIFD::ChromaticAberrationParams => 0xf00f,
        FujiIFD::VignettingParams => 0xf010,
    }
}

impl FujiIFD {
    /// Returns the tag number of the variant.
    pub fn number(self) -> (r: u16)
        ensures
            r == spec_fujiifd_number(self),
    {
        match self {
            FujiIFD::FujiIFD => 0xf000,
            FujiIFD::RawImageFullWidth => 0xf001,
            FujiIFD::RawImageFullHeight => 0xf002,
            FujiIFD::BitsPerSample => 0xf003,
            FujiIFD::StripOffsets => 0xf007,
            FujiIFD::StripByteCounts => 0xf008,
            FujiIFD::BlackLevel => 0xf00a,
            FujiIFD::GeometricDistortionParams => 0xf00b,
            FujiIFD::WB_GRBLevelsStandard => 0xf00c,
            FujiIFD::WB_GRBLevelsAuto => 0xf00d,
            FujiIFD::WB_GRBLevels => 0xf00e,
            FujiIFD::ChromaticAberrationParams => 0xf00f,
            FujiIFD::VignettingParams => 0xf010,
        }
    }

    /// Returns the variant with the given tag number, if there is one.
    pub fn n(value: u16) -> (r: Option<FujiIFD>)
        ensures
            match r {
                Some(x) => spec_fujiifd_number(x) == value,
                None => forall|x: FujiIFD| spec_fujiifd_number(x) != value,
            },
    {
        match value {
            0xf000 => Some(FujiIFD::FujiIFD),
            0xf001 => Some(FujiIFD::RawImageFullWidth),
            0xf002 => Some(FujiIFD::RawImageFullHeight),
            0xf003 => Some(FujiIFD::BitsPerSample),
            0xf007 => Some(FujiIFD::StripOffsets),
            0xf008 => Some(FujiIFD::StripByteCounts),
            0xf00a => Some(FujiIFD::BlackLevel),
            0xf00b => Some(FujiIFD::GeometricDistortionParams),
            0xf00c => Some(FujiIFD::WB_GRBLevelsStandard),
            0xf00d => Some(FujiIFD::WB_GRBLevelsAuto),
            0xf00e => Some(FujiIFD::WB_GRBLevels),
            0xf00f => Some(FujiIFD::ChromaticAberrationParams),
            0xf010 => Some(FujiIFD::VignettingParams),
            _ => None,
        }
    }
}

/// Whether the data starts with the RAF signature "FUJIFILM".
pub open spec fn spec_is_fuji_raf(buf: Seq<u8>) -> bool {
    buf.subrange(0, 8) == seq![0x46u8, 0x55, 0x4a, 0x49, 0x46, 0x49, 0x4c, 0x4d]
}

/// Returns true if the data starts with "FUJIFILM".
pub fn is_fuji_raf(buf: &[u8]) -> (r: bool)
    requires
        buf@.len() >= 8,
    ensures
        r == spec_is_fuji_raf(buf@),
{
    let sig: [u8; 8] = [0x46, 0x55, 0x4a, 0x49, 0x46, 0x49, 0x4c, 0x4d];
    let mut i: usize = 0;
    while i < 8
        invariant
            i <= 8 <= buf@.len(),
            sig@ == seq![0x46u8, 0x55, 0x4a, 0x49, 0x46, 0x49, 0x4c, 0x4d],
            forall|j: int| 0 <= j < i ==> buf@[j] == sig@[j],
        decreases 8 - i,
    {
        if buf[i] != sig[i] {
            assert(buf@.subrange(0, 8)[i as int] != sig@[i as int]);
            return false;
        }
        i += 1;
    }
    assert(buf@.subrange(0, 8) =~= sig@);
    true
}

/// The position of the big-endian offset of the embedded JPEG image.
pub const TIFF1_JPEG_PTR_OFFSET: usize = 84;

/// The position of the big-endian offset of the RAF tag records.
pub const TAGS_PTR_OFFSET: usize = 92;

/// How a RAF tag record is kept: as SHORTs (big endian), as BYTEs, as
/// LONGs (little endian), or skipped.
pub open spec fn raf_kind(tag: u16) -> int {
    if tag == 0x100 || tag == 0x110 || tag == 0x111 || tag == 0x115 || tag == 0x2ff0 {
        3
    } else if tag == 0x130 || tag == 0x131 {
        1
    } else if tag == 0xc000 {
        4
    } else {
        0
    }
}

/// The value of a kept record of `len` bytes at `p`.
pub open spec fn raf_value(tag: u16, d: Seq<u8>, p: int, len: int) -> ValueView {
    if raf_kind(tag) == 3 {
        ValueView::Short(Seq::new((len / 2) as nat, |i: int| spec_u16(false, d, p + 2 * i)))
    } else if raf_kind(tag) == 1 {
        ValueView::Byte(d.subrange(p, p + len))
    } else {
        ValueView::Long(Seq::new((len / 4) as nat, |i: int| spec_u32(true, d, p + 4 * i)))
    }
}

/// The fields of the `n` tag records that start at `pos`.  A kept record
/// must lie inside the data; a skipped one is passed over unread.
pub open spec fn raf_records_spec(d: Seq<u8>, pos: int, n: int) -> Result<Seq<FieldView>, Error>
    decreases n,
{
    if n <= 0 {
        Ok(Seq::empty())
    } else if pos + 4 > d.len() {
        Err(Error::InvalidFormat("Truncated RAF tag record"))
    } else {
        let tag = spec_u16(false, d, pos);
        let len = spec_u16(false, d, pos + 2) as int;
        if raf_kind(tag) == 0 {
            raf_records_spec(d, pos + 4 + len, n - 1)
        } else if pos + 4 + len > d.len() {
            Err(Error::InvalidFormat("Truncated RAF tag record"))
        } else {
            let f = FieldView {
                tag: Tag(Context::FujiRaf, tag),
                ifd_num: In(0),
                value: raf_value(tag, d, pos + 4, len),
            };
            prepend(seq![f], raf_records_spec(d, pos + 4 + len, n - 1))
        }
    }
}

/// The fields of the RAF tag records of a Fujifilm RAF file, and the byte
/// order of its TIFF data.
pub open spec fn raf_spec(d: Seq<u8>) -> Result<(Seq<FieldView>, bool), Error> {
    if d.len() < 96 {
        Err(Error::InvalidFormat("Truncated RAF header"))
    } else {
        let jpeg = spec_u32(false, d, 84) as int;
        if jpeg + 14 > d.len() {
            Err(Error::InvalidFormat("Truncated RAF header"))
        } else {
            let bo = spec_u16(false, d, jpeg + 12);
            if bo != 0x4949 && bo != 0x4d4d {
                Err(Error::NotFound("Invalid endian"))
            } else {
                let tags = spec_u32(false, d, 92) as int;
                if tags + 4 > d.len() {
                    Err(Error::InvalidFormat("Truncated RAF header"))
                } else {
                    match raf_records_spec(d, tags + 4, spec_u32(false, d, tags) as int) {
                        Ok(fs) => Ok((fs, bo == 0x4949)),
                        Err(e) => Err(e),
                    }
                }
            }
        }
    }
}

fn raf_record_value(tag: u16, d: &[u8], p: usize, len: usize) -> (r: Value)
    requires
        raf_kind(tag) != 0,
        p + len <= d@.len(),
    ensures
        r@ == raf_value(tag, d@, p as int, len as int),
{
    let _n = d.len();
    if tag == 0x130 || tag == 0x131 {
        let mut v: Vec<u8> = Vec::new();
        let mut i: usize = 0;
        while i < len
            invariant
                i <= len,
                p + len <= d@.len(),
                d@.len() <= usize::MAX,
                v@ == d@.subrange(p as int, p + i),
            decreases len - i,
        {
            v.push(d[p + i]);
            i += 1;
            assert(v@ =~= d@.subrange(p as int, p + i));
        }
        Value::Byte(v)
    } else if tag == 0xc000 {
        let mut v: Vec<u32> = Vec::new();
        let mut i: usize = 0;
        while i < len / 4
            invariant
                i <= len / 4,
                p + len <= d@.len(),
                d@.len() <= usize::MAX,
                v@ == Seq::new(i as nat, |j: int| spec_u32(true, d@, p + 4 * j)),
            decreases len / 4 - i,
        {
            v.push(load_u32(true, d, p + 4 * i));
            i += 1;
            assert(v@ =~= Seq::new(i as nat, |j: int| spec_u32(true, d@, p + 4 * j)));
        }
        Value::Long(v)
    } else {
        let mut v: Vec<u16> = Vec::new();
        let mut i: usize = 0;
        while i < len / 2
            invariant
                i <= len / 2,
                p + len <= d@.len(),
                d@.len() <= usize::MAX,
                v@ == Seq::new(i as nat, |j: int| spec_u16(false, d@, p + 2 * j)),
            decreases len / 2 - i,
        {
            v.push(load_u16(false, d, p + 2 * i));
            i += 1;
            assert(v@ =~= Seq::new(i as nat, |j: int| spec_u16(false, d@, p + 2 * j)));
        }
        Value::Short(v)
    }
}

/// Parses the RAF tag records of a Fujifilm RAF file held in `data`.
/// The result holds decoded values only, and no TIFF data.
pub fn parse_fuji_raw(data: &[u8]) -> (r: Result<Exif, Error>)
    ensures
        match raf_spec(data@) {
            Ok((fs, le)) => r is Ok && r->Ok_0.fields_spec() == fs && r->Ok_0.le_spec() == le
                && r->Ok_0.buf_spec() == Seq::<u8>::empty(),
            Err(e) => r == Err::<Exif, Error>(e),
        },
{
    let ghost d = data@;
    let len = data.len();
    if len < 96 {
        return Err(Error::InvalidFormat("Truncated RAF header"));
    }
    let jpeg = load_u32(false, data, TIFF1_JPEG_PTR_OFFSET) as usize;
    if jpeg > len || len - jpeg < 14 {
        return Err(Error::InvalidFormat("Truncated RAF header"));
    }
    let bo = load_u16(false, data, jpeg + 12);
    let little_endian = if bo == 0x4949 {
        true
    } else if bo == 0x4d4d {
        false
    } else {
        return Err(Error::NotFound("Invalid endian"));
    };
    let tags = load_u32(false, data, TAGS_PTR_OFFSET) as usize;
    if tags > len || len - tags < 4 {
        return Err(Error::InvalidFormat("Truncated RAF header"));
    }
    let num_tags = load_u32(false, data, tags);
    let mut pos: usize = tags + 4;
    let mut k: u32 = 0;
    let mut entries: Vec<IfdEntry> = Vec::new();
    let ghost first = raf_records_spec(d, tags + 4, num_tags as int);
    let ghost mut done: Seq<FieldView> = Seq::empty();
    assert(prepend(done, first) =~= first) by {
        if let Ok(s) = first {
            assert(done + s =~= s);
        }
    }
    while k < num_tags
        invariant
            k <= num_tags,
            d == data@,
            len == d.len(),
            len >= 96,
            pos <= len + 4,
            raw_fields(entries@) == done,
            forall|i: int| 0 <= i < entries@.len() ==> #[trigger] entries@[i].wf(Seq::<u8>::empty())
                && is_final(entries@[i].raw().value),
            prepend(done, raf_records_spec(d, pos as int, num_tags - k)) == first,
            raf_spec(d) == match first {
                Ok(fs) => Ok((fs, little_endian)),
                Err(e) => Err::<(Seq<FieldView>, bool), Error>(e),
            },
        decreases num_tags - k,
    {
        if pos > len || len - pos < 4 {
            return Err(Error::InvalidFormat("Truncated RAF tag record"));
        }
        let tag = load_u16(false, data, pos);
        let rlen = load_u16(false, data, pos + 2) as usize;
        let start = pos + 4;
        let ghost before = done;
        if tag == 0x100 || tag == 0x110 || tag == 0x111 || tag == 0x115 || tag == 0x2ff0
            || tag == 0x130 || tag == 0x131 || tag == 0xc000 {
            if len - start < rlen {
                return Err(Error::InvalidFormat("Truncated RAF tag record"));
            }
            let value = raf_record_value(tag, data, start, rlen);
            assert(is_final(value@));
            let ghost f = FieldView {
                tag: Tag(Context::FujiRaf, tag),
                ifd_num: In(0),
                value: value@,
            };
            let mut cell = MutOnce::new(Field { tag: Tag(Context::FujiRaf, tag), ifd_num: In(0), value });
            let _ = cell.get_ref();
            let ghost prev = entries@;
            let entry = IfdEntry { field: cell };
            assert(entry.raw() == f);
            assert(is_final(f.value));
            assert(crate::ifd::placeholder_in_bounds(Seq::<u8>::empty(), f.value));
            assert(entry.wf(Seq::<u8>::empty()));
            entries.push(entry);
            proof {
                done = before + seq![f];
                assert(raw_fields(entries@) =~= raw_fields(prev).push(f));
                assert forall|i: int| 0 <= i < entries@.len() implies #[trigger] entries@[i].wf(
                    Seq::<u8>::empty(),
                ) && is_final(entries@[i].raw().value) by {
                    if i < prev.len() {
                        assert(entries@[i] == prev[i]);
                    } else {
                        assert(entries@[i].raw() == f);
                    }
                }
                if let Ok(s) = raf_records_spec(d, start + rlen, num_tags - k - 1) {
                    assert(before + (seq![f] + s) =~= done + s);
                }
            }
            pos = start + rlen;
        } else {
            if len - start < rlen {
                // A skipped record may reach past the end; no later record
                // can then be read.
                pos = len - 3;
                assert(raf_records_spec(d, len - 3, num_tags - k - 1) == raf_records_spec(
                    d,
                    start + rlen,
                    num_tags - k - 1,
                ));
            } else {
                pos = start + rlen;
            }
        }
        k += 1;
    }
    proof {
        assert(done + Seq::<FieldView>::empty() =~= done);
    }
    let ghost es = entries@;
    let r = Exif::from_entries(Vec::new(), entries, little_endian);
    proof {
        assert forall|i: int| 0 <= i < done.len() implies #[trigger] resolve_fields(
            little_endian,
            Seq::<u8>::empty(),
            done,
        )[i] == done[i] by {
            assert(done[i] == raw_fields(es)[i]);
            assert(es[i].wf(Seq::<u8>::empty()));
            crate::ifd::lemma_resolve_final(little_endian, Seq::<u8>::empty(), done[i].value);
        }
        assert(resolve_fields(little_endian, Seq::<u8>::empty(), done) =~= done);
    }
    Ok(r)
}

/// The Exif data found in a Fujifilm RAF file: that of the embedded JPEG
/// image and the RAF tag records.
#[derive(Debug)]
pub struct FujiParser {
    pub jpeg_exif: Option<Exif>,
    pub raw_exif: Option<Exif>,
}

impl Default for FujiParser {
    fn default() -> (r: Self)
        ensures
            r.jpeg_exif is None,
            r.raw_exif is None,
    {
        FujiParser { jpeg_exif: None, raw_exif: None }
    }
}

impl FujiParser {
    /// Decodes the RAF tag records of `data`, the whole RAF file, into
    /// `raw_exif` (`None` when they cannot be decoded).  `jpeg_exif` is
    /// left as it is.
    pub fn parse(&mut self, data: &[u8]) -> (r: Result<(), Error>)
        ensures
            r is Ok,
            final(self).jpeg_exif == old(self).jpeg_exif,
            match raf_spec(data@) {
                Ok((fs, le)) => final(self).raw_exif matches Some(x) && x.fields_spec() == fs
                    && x.le_spec() == le,
                Err(_) => final(self).raw_exif is None,
            },
    {
        self.raw_exif = match parse_fuji_raw(data) {
            Ok(x) => Some(x),
            Err(_) => None,
        };
        Ok(())
    }
}

} // verus!
