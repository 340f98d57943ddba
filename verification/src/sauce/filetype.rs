//! The format of a file, within the kind that its datatype names.

use super::datatype::DataType;
use super::error::SauceError;
use crate::string::{decimal, push_decimal};
use vstd::prelude::*;
use vstd::string::StringExecFns;

verus! {

/// The format of a file. Each format belongs to one datatype, and the
/// filetype byte of a record is read by the record's datatype.
#[derive(Debug, Clone, Copy, PartialEq, Eq, Structural)]
pub enum FileType {
    // Character
    ASCII,
    ANSI,
    ANSIMation,
    RIPScript,
    PCBoard,
    Avatar,
    HTML,
    Source,
    TundraDraw,
    // Bitmap
    GIF,
    PCX,
    LBMOrIFF,
    TGA,
    FLI,
    FLC,
    BMP,
    GL,
    DL,
    WPGBitmap,
    PNG,
    JPG,
    MPG,
    AVI,
    // Vector
    DXF,
    DWG,
    WPGVector,
    Studio3DS,
    // Audio
    MOD,
    Renaissance669,
    STM,
    S3M,
    MTM,
    FAR,
    ULT,
    AMF,
    DMF,
    OKT,
    ROL,
    CMF,
    MID,
    SADT,
    VOC,
    WAV,
    SMP8,
    SMP8S,
    SMP16,
    SMP16S,
    PATCH8,
    PATCH16,
    XM,
    HSC,
    IT,
    // BinaryText: the byte is a column width, not a code
    Variable(u8),
    // XBin
    ExtendedBin,
    // Archive
    ZIP,
    ARJ,
    LZH,
    ARC,
    TAR,
    ZOO,
    RAR,
    UC2,
    PAK,
    SQZ,
}

impl FileType {
    /// The byte that stands for this format in a record.
    pub open spec fn code(self) -> u8 {
        match self {
            FileType::ASCII => 0,
            FileType::ANSI => 1,
            FileType::ANSIMation => 2,
            FileType::RIPScript => 3,
            FileType::PCBoard => 4,
            FileType::Avatar => 5,
            FileType::HTML => 6,
            FileType::Source => 7,
            FileType::TundraDraw => 8,
            FileType::GIF => 0,
            FileType::PCX => 1,
            FileType::LBMOrIFF => 2,
            FileType::TGA => 3,
            FileType::FLI => 4,
            FileType::FLC => 5,
            FileType::BMP => 6,
            FileType::GL => 7,
            FileType::DL => 8,
            FileType::WPGBitmap => 9,
            FileType::PNG => 10,
            FileType::JPG => 11,
            FileType::MPG => 12,
            FileType::AVI => 13,
            FileType::DXF => 0,
            FileType::DWG => 1,
            FileType::WPGVector => 2,
            FileType::Studio3DS => 3,
            FileType::MOD => 0,
            FileType::Renaissance669 => 1,
            FileType::STM => 2,
            FileType::S3M => 3,
            FileType::MTM => 4,
            FileType::FAR => 5,
            FileType::ULT => 6,
            FileType::AMF => 7,
            FileType::DMF => 8,
            FileType::OKT => 9,
            FileType::ROL => 10,
            FileType::CMF => 11,
            FileType::MID => 12,
            FileType::SADT => 13,
            FileType::VOC => 14,
            FileType::WAV => 15,
            FileType::SMP8 => 16,
            FileType::SMP8S => 17,
            FileType::SMP16 => 18,
            FileType::SMP16S => 19,
            FileType::PATCH8 => 20,
            FileType::PATCH16 => 21,
            FileType::XM => 22,
            FileType::HSC => 23,
            FileType::IT => 24,
            FileType::ZIP => 0,
            FileType::ARJ => 1,
            FileType::LZH => 2,
            FileType::ARC => 3,
            FileType::TAR => 4,
            FileType::ZOO => 5,
            FileType::RAR => 6,
            FileType::UC2 => 7,
            FileType::PAK => 8,
            FileType::SQZ => 9,
            FileType::Variable(width) => width,
            FileType::ExtendedBin => 0,
        }
    }

    /// The datatype that this format belongs to.
    pub open spec fn datatype(self) -> DataType {
        match self {
            FileType::ASCII | FileType::ANSI | FileType::ANSIMation | FileType::RIPScript | FileType::PCBoard | FileType::Avatar | FileType::HTML | FileType::Source | FileType::TundraDraw => DataType::Character,
            FileType::GIF | FileType::PCX | FileType::LBMOrIFF | FileType::TGA | FileType::FLI | FileType::FLC | FileType::BMP | FileType::GL | FileType::DL | FileType::WPGBitmap | FileType::PNG | FileType::JPG | FileType::MPG | FileType::AVI => DataType::Bitmap,
            FileType::DXF | FileType::DWG | FileType::WPGVector | FileType::Studio3DS => DataType::Vector,
            FileType::MOD | FileType::Renaissance669 | FileType::STM | FileType::S3M | FileType::MTM | FileType::FAR | FileType::ULT | FileType::AMF | FileType::DMF | FileType::OKT | FileType::ROL | FileType::CMF | FileType::MID | FileType::SADT | FileType::VOC | FileType::WAV | FileType::SMP8 | FileType::SMP8S | FileType::SMP16 | FileType::SMP16S | FileType::PATCH8 | FileType::PATCH16 | FileType::XM | FileType::HSC | FileType::IT => DataType::Audio,
            FileType::ZIP | FileType::ARJ | FileType::LZH | FileType::ARC | FileType::TAR | FileType::ZOO | FileType::RAR | FileType::UC2 | FileType::PAK | FileType::SQZ => DataType::Archive,
            FileType::Variable(_) => DataType::BinaryText,
            FileType::ExtendedBin => DataType::XBin,
        }
    }

    /// The byte that stands for this format in a record.
    pub fn as_u8(&self) -> (r: u8)
        ensures
            r == self.code(),
    {
        match *self {
            FileType::ASCII => 0,
            FileType::ANSI => 1,
            FileType::ANSIMation => 2,
            FileType::RIPScript => 3,
            FileType::PCBoard => 4,
            FileType::Avatar => 5,
            FileType::HTML => 6,
            FileType::Source => 7,
            FileType::TundraDraw => 8,
            FileType::GIF => 0,
            FileType::PCX => 1,
            FileType::LBMOrIFF => 2,
            FileType::TGA => 3,
            FileType::FLI => 4,
            FileType::FLC => 5,
            FileType::BMP => 6,
            FileType::GL => 7,
            FileType::DL => 8,
            FileType::WPGBitmap => 9,
            FileType::PNG => 10,
            FileType::JPG => 11,
            FileType::MPG => 12,
            FileType::AVI => 13,
            FileType::DXF => 0,
            FileType::DWG => 1,
            FileType::WPGVector => 2,
            FileType::Studio3DS => 3,
            FileType::MOD => 0,
            FileType::Renaissance669 => 1,
            FileType::STM => 2,
            FileType::S3M => 3,
            FileType::MTM => 4,
            FileType::FAR => 5,
            FileType::ULT => 6,
            FileType::AMF => 7,
            FileType::DMF => 8,
            FileType::OKT => 9,
            FileType::ROL => 10,
            FileType::CMF => 11,
            FileType::MID => 12,
            FileType::SADT => 13,
            FileType::VOC => 14,
            FileType::WAV => 15,
            FileType::SMP8 => 16,
            FileType::SMP8S => 17,
            FileType::SMP16 => 18,
            FileType::SMP16S => 19,
            FileType::PATCH8 => 20,
            FileType::PATCH16 => 21,
            FileType::XM => 22,
            FileType::HSC => 23,
            FileType::IT => 24,
            FileType::ZIP => 0,
            FileType::ARJ => 1,
            FileType::LZH => 2,
            FileType::ARC => 3,
            FileType::TAR => 4,
            FileType::ZOO => 5,
            FileType::RAR => 6,
            FileType::UC2 => 7,
            FileType::PAK => 8,
            FileType::SQZ => 9,
            FileType::Variable(width) => width,
            FileType::ExtendedBin => 0,
        }
    }

    /// The datatype that this format belongs to.
    pub fn owner(&self) -> (r: DataType)
        ensures
            r == self.datatype(),
    {
        match *self {
            FileType::ASCII | FileType::ANSI | FileType::ANSIMation | FileType::RIPScript | FileType::PCBoard | FileType::Avatar | FileType::HTML | FileType::Source | FileType::TundraDraw => DataType::Character,
            FileType::GIF | FileType::PCX | FileType::LBMOrIFF | FileType::TGA | FileType::FLI | FileType::FLC | FileType::BMP | FileType::GL | FileType::DL | FileType::WPGBitmap | FileType::PNG | FileType::JPG | FileType::MPG | FileType::AVI => DataType::Bitmap,
            FileType::DXF | FileType::DWG | FileType::WPGVector | FileType::Studio3DS => DataType::Vector,
            FileType::MOD | FileType::Renaissance669 | FileType::STM | FileType::S3M | FileType::MTM | FileType::FAR | FileType::ULT | FileType::AMF | FileType::DMF | FileType::OKT | FileType::ROL | FileType::CMF | FileType::MID | FileType::SADT | FileType::VOC | FileType::WAV | FileType::SMP8 | FileType::SMP8S | FileType::SMP16 | FileType::SMP16S | FileType::PATCH8 | FileType::PATCH16 | FileType::XM | FileType::HSC | FileType::IT => DataType::Audio,
            FileType::ZIP | FileType::ARJ | FileType::LZH | FileType::ARC | FileType::TAR | FileType::ZOO | FileType::RAR | FileType::UC2 | FileType::PAK | FileType::SQZ => DataType::Archive,
            FileType::Variable(_) => DataType::BinaryText,
            FileType::ExtendedBin => DataType::XBin,
        }
    }

    /// The name of the format. A width in columns is named by its number.
    pub open spec fn name(self) -> Seq<char> {
        match self {
            FileType::ASCII => "ASCII"@,
            FileType::ANSI => "ANSI"@,
            FileType::ANSIMation => "ANSIMation"@,
            FileType::RIPScript => "RIPScript"@,
            FileType::PCBoard => "PCBoard"@,
            FileType::Avatar => "Avatar"@,
            FileType::HTML => "HTML"@,
            FileType::Source => "Source"@,
            FileType::TundraDraw => "TundraDraw"@,
            FileType::GIF => "GIF"@,
            FileType::PCX => "PCX"@,
            FileType::LBMOrIFF => "LBM/IFF"@,
            FileType::TGA => "TGA"@,
            FileType::FLI => "FLI"@,
            FileType::FLC => "FLC"@,
            FileType::BMP => "BMP"@,
            FileType::GL => "GL"@,
            FileType::DL => "DL"@,
            FileType::WPGBitmap => "WPG Bitmap"@,
            FileType::PNG => "PNG"@,
            FileType::JPG => "JPG"@,
            FileType::MPG => "MPG"@,
            FileType::AVI => "AVI"@,
            FileType::DXF => "DXF"@,
            FileType::DWG => "DWG"@,
            FileType::WPGVector => "WPG Vector"@,
            FileType::Studio3DS => "3DS"@,
            FileType::MOD => "MOD"@,
            FileType::Renaissance669 => "669"@,
            FileType::STM => "STM"@,
            FileType::S3M => "S3M"@,
            FileType::MTM => "MTM"@,
            FileType::FAR => "FAR"@,
            FileType::ULT => "ULT"@,
            FileType::AMF => "AMF"@,
            FileType::DMF => "DMF"@,
            FileType::OKT => "OKT"@,
            FileType::ROL => "ROL"@,
            FileType::CMF => "CMF"@,
            FileType::MID => "MID"@,
            FileType::SADT => "SADT"@,
            FileType::VOC => "VOC"@,
            FileType::WAV => "WAV"@,
            FileType::SMP8 => "SMP8"@,
            FileType::SMP8S => "SMP8S"@,
            FileType::SMP16 => "SMP16"@,
            FileType::SMP16S => "SMP16S"@,
            FileType::PATCH8 => "PATCH8"@,
            FileType::PATCH16 => "PATCH16"@,
            FileType::XM => "XM"@,
            FileType::HSC => "HSC"@,
            FileType::IT => "IT"@,
            FileType::ExtendedBin => "ExtendedBin"@,
            FileType::ZIP => "ZIP"@,
            FileType::ARJ => "ARJ"@,
            FileType::LZH => "LZH"@,
            FileType::ARC => "ARC"@,
            FileType::TAR => "TAR"@,
            FileType::ZOO => "ZOO"@,
            FileType::RAR => "RAR"@,
            FileType::UC2 => "UC2"@,
            FileType::PAK => "PAK"@,
            FileType::SQZ => "SQZ"@,
            FileType::Variable(width) => "Variable("@ + decimal(width as nat) + ")"@,
        }
    }

    /// The name of the format.
    pub fn to_string(&self) -> (r: String)
        ensures
            r@ == self.name(),
    {
        match *self {
            FileType::ASCII => "ASCII".to_owned(),
            FileType::ANSI => "ANSI".to_owned(),
            FileType::ANSIMation => "ANSIMation".to_owned(),
            FileType::RIPScript => "RIPScript".to_owned(),
            FileType::PCBoard => "PCBoard".to_owned(),
            FileType::Avatar => "Avatar".to_owned(),
            FileType::HTML => "HTML".to_owned(),
            FileType::Source => "Source".to_owned(),
            FileType::TundraDraw => "TundraDraw".to_owned(),
            FileType::GIF => "GIF".to_owned(),
            FileType::PCX => "PCX".to_owned(),
            FileType::LBMOrIFF => "LBM/IFF".to_owned(),
            FileType::TGA => "TGA".to_owned(),
            FileType::FLI => "FLI".to_owned(),
            FileType::FLC => "FLC".to_owned(),
            FileType::BMP => "BMP".to_owned(),
            FileType::GL => "GL".to_owned(),
            FileType::DL => "DL".to_owned(),
            FileType::WPGBitmap => "WPG Bitmap".to_owned(),
            FileType::PNG => "PNG".to_owned(),
            FileType::JPG => "JPG".to_owned(),
            FileType::MPG => "MPG".to_owned(),
            FileType::AVI => "AVI".to_owned(),
            FileType::DXF => "DXF".to_owned(),
            FileType::DWG => "DWG".to_owned(),
            FileType::WPGVector => "WPG Vector".to_owned(),
            FileType::Studio3DS => "3DS".to_owned(),
            FileType::MOD => "MOD".to_owned(),
            FileType::Renaissance669 => "669".to_owned(),
            FileType::STM => "STM".to_owned(),
            FileType::S3M => "S3M".to_owned(),
            FileType::MTM => "MTM".to_owned(),
            FileType::FAR => "FAR".to_owned(),
            FileType::ULT => "ULT".to_owned(),
            FileType::AMF => "AMF".to_owned(),
            FileType::DMF => "DMF".to_owned(),
            FileType::OKT => "OKT".to_owned(),
            FileType::ROL => "ROL".to_owned(),
            FileType::CMF => "CMF".to_owned(),
            FileType::MID => "MID".to_owned(),
            FileType::SADT => "SADT".to_owned(),
            FileType::VOC => "VOC".to_owned(),
            FileType::WAV => "WAV".to_owned(),
            FileType::SMP8 => "SMP8".to_owned(),
            FileType::SMP8S => "SMP8S".to_owned(),
            FileType::SMP16 => "SMP16".to_owned(),
            FileType::SMP16S => "SMP16S".to_owned(),
            FileType::PATCH8 => "PATCH8".to_owned(),
            FileType::PATCH16 => "PATCH16".to_owned(),
            FileType::XM => "XM".to_owned(),
            FileType::HSC => "HSC".to_owned(),
            FileType::IT => "IT".to_owned(),
            FileType::ExtendedBin => "ExtendedBin".to_owned(),
            FileType::ZIP => "ZIP".to_owned(),
            FileType::ARJ => "ARJ".to_owned(),
            FileType::LZH => "LZH".to_owned(),
            FileType::ARC => "ARC".to_owned(),
            FileType::TAR => "TAR".to_owned(),
            FileType::ZOO => "ZOO".to_owned(),
            FileType::RAR => "RAR".to_owned(),
            FileType::UC2 => "UC2".to_owned(),
            FileType::PAK => "PAK".to_owned(),
            FileType::SQZ => "SQZ".to_owned(),
            FileType::Variable(width) => {
                let mut name = "Variable(".to_owned();
                push_decimal(&mut name, width as usize);
                name.append(")");
                name
            },
        }
    }
}

/// The format that a record's filetype byte stands for under the record's
/// datatype. Without a datatype there is no format, whatever the byte. A
/// binary text takes every byte, as its width in columns. An extended binary
/// and an executable take only 0, and an executable then has no format. Under
/// every other datatype the byte must be one of that datatype's codes.
pub open spec fn filetype_of(byte: u8, datatype: Option<DataType>) -> Result<
    Option<FileType>,
    SauceError,
> {
    match datatype {
        Some(DataType::Character) => match byte {
            0 => Ok(Some(FileType::ASCII)),
            1 => Ok(Some(FileType::ANSI)),
            2 => Ok(Some(FileType::ANSIMation)),
            3 => Ok(Some(FileType::RIPScript)),
            4 => Ok(Some(FileType::PCBoard)),
            5 => Ok(Some(FileType::Avatar)),
            6 => Ok(Some(FileType::HTML)),
            7 => Ok(Some(FileType::Source)),
            8 => Ok(Some(FileType::TundraDraw)),
            _ => Err(SauceError::InvalidFileType),
        },
        Some(DataType::Bitmap) => match byte {
            0 => Ok(Some(FileType::GIF)),
            1 => Ok(Some(FileType::PCX)),
            2 => Ok(Some(FileType::LBMOrIFF)),
            3 => Ok(Some(FileType::TGA)),
            4 => Ok(Some(FileType::FLI)),
            5 => Ok(Some(FileType::FLC)),
            6 => Ok(Some(FileType::BMP)),
            7 => Ok(Some(FileType::GL)),
            8 => Ok(Some(FileType::DL)),
            9 => Ok(Some(FileType::WPGBitmap)),
            10 => Ok(Some(FileType::PNG)),
            11 => Ok(Some(FileType::JPG)),
            12 => Ok(Some(FileType::MPG)),
            13 => Ok(Some(FileType::AVI)),
            _ => Err(SauceError::InvalidFileType),
        },
        Some(DataType::Vector) => match byte {
            0 => Ok(Some(FileType::DXF)),
            1 => Ok(Some(FileType::DWG)),
            2 => Ok(Some(FileType::WPGVector)),
            3 => Ok(Some(FileType::Studio3DS)),
            _ => Err(SauceError::InvalidFileType),
        },
        Some(DataType::Audio) => match byte {
            0 => Ok(Some(FileType::MOD)),
            1 => Ok(Some(FileType::Renaissance669)),
            2 => Ok(Some(FileType::STM)),
            3 => Ok(Some(FileType::S3M)),
            4 => Ok(Some(FileType::MTM)),
            5 => Ok(Some(FileType::FAR)),
            6 => Ok(Some(FileType::ULT)),
            7 => Ok(Some(FileType::AMF)),
            8 => Ok(Some(FileType::DMF)),
            9 => Ok(Some(FileType::OKT)),
            10 => Ok(Some(FileType::ROL)),
            11 => Ok(Some(FileType::CMF)),
            12 => Ok(Some(FileType::MID)),
            13 => Ok(Some(FileType::SADT)),
            14 => Ok(Some(FileType::VOC)),
            15 => Ok(Some(FileType::WAV)),
            16 => Ok(Some(FileType::SMP8)),
            17 => Ok(Some(FileType::SMP8S)),
            18 => Ok(Some(FileType::SMP16)),
            19 => Ok(Some(FileType::SMP16S)),
            20 => Ok(Some(FileType::PATCH8)),
            21 => Ok(Some(FileType::PATCH16)),
            22 => Ok(Some(FileType::XM)),
            23 => Ok(Some(FileType::HSC)),
            24 => Ok(Some(FileType::IT)),
            _ => Err(SauceError::InvalidFileType),
        },
        Some(DataType::Archive) => match byte {
            0 => Ok(Some(FileType::ZIP)),
            1 => Ok(Some(FileType::ARJ)),
            2 => Ok(Some(FileType::LZH)),
            3 => Ok(Some(FileType::ARC)),
            4 => Ok(Some(FileType::TAR)),
            5 => Ok(Some(FileType::ZOO)),
            6 => Ok(Some(FileType::RAR)),
            7 => Ok(Some(FileType::UC2)),
            8 => Ok(Some(FileType::PAK)),
            9 => Ok(Some(FileType::SQZ)),
            _ => Err(SauceError::InvalidFileType),
        },
        Some(DataType::BinaryText) => Ok(Some(FileType::Variable(byte))),
        Some(DataType::XBin) => if byte == 0 {
            Ok(Some(FileType::ExtendedBin))
        } else {
            Err(SauceError::InvalidFileType)
        },
        Some(DataType::Executable) => if byte == 0 {
            Ok(None)
        } else {
            Err(SauceError::InvalidFileType)
        },
        None => Ok(None),
    }
}

/// The byte written for an optional format: 0 where there is none.
pub open spec fn filetype_code(filetype: Option<FileType>) -> u8 {
    match filetype {
        Some(f) => f.code(),
        None => 0,
    }
}

/// Whether a record with this datatype and this format is read back with
/// the same two values: the format belongs to the datatype, and is absent
/// exactly where there is no datatype or the datatype is an executable.
pub open spec fn filetype_fits(datatype: Option<DataType>, filetype: Option<FileType>) -> bool {
    match datatype {
        None | Some(DataType::Executable) => filetype is None,
        Some(d) => filetype matches Some(f) && f.datatype() == d,
    }
}

/// A format is read back from its own byte under its own datatype.
pub proof fn lemma_filetype_of_code(filetype: FileType)
    ensures
        filetype_of(filetype.code(), Some(filetype.datatype())) == Ok::<_, SauceError>(
            Some(filetype),
        ),
{
}

/// A datatype and a format that fit are read back from the bytes written
/// for them, and only those are.
pub proof fn lemma_filetype_fits(datatype: Option<DataType>, filetype: Option<FileType>)
    ensures
        filetype_fits(datatype, filetype) <==> filetype_of(filetype_code(filetype), datatype)
            == Ok::<_, SauceError>(filetype),
{
}

/// Whatever is read from a byte is written as that byte again, but for the
/// byte that is ignored where there is no datatype.
pub proof fn lemma_filetype_code_of(byte: u8, datatype: Option<DataType>)
    requires
        filetype_of(byte, datatype) is Ok,
        datatype is Some,
    ensures
        filetype_code(filetype_of(byte, datatype)->Ok_0) == byte,
        filetype_fits(datatype, filetype_of(byte, datatype)->Ok_0),
{
}

/// A binary text takes every filetype byte as its width.
pub proof fn lemma_binary_text_takes_every_byte(byte: u8)
    ensures
        filetype_of(byte, Some(DataType::BinaryText)) == Ok::<_, SauceError>(
            Some(FileType::Variable(byte)),
        ),
{
}

/// An extended binary and an executable take no filetype byte but 0.
pub proof fn lemma_only_zero_where_no_choice(byte: u8)
    ensures
        filetype_of(byte, Some(DataType::XBin)) is Ok <==> byte == 0,
        filetype_of(byte, Some(DataType::Executable)) is Ok <==> byte == 0,
        byte != 0 ==> filetype_of(byte, Some(DataType::XBin)) == Err::<Option<FileType>, _>(
            SauceError::InvalidFileType,
        ),
        byte != 0 ==> filetype_of(byte, Some(DataType::Executable)) == Err::<Option<FileType>, _>(
            SauceError::InvalidFileType,
        ),
{
}

/// A byte read as a filetype code.
pub trait AsFileType {
    /// The byte to read.
    spec fn filetype_byte(&self) -> u8;

    /// The format that the byte stands for under `datatype`.
    fn as_filetype(&self, datatype: &Option<DataType>) -> (r: Result<Option<FileType>, SauceError>)
        ensures
            r == filetype_of(self.filetype_byte(), *datatype),
    ;
}

impl AsFileType for u8 {
    open spec fn filetype_byte(&self) -> u8 {
        *self
    }

    fn as_filetype(&self, datatype: &Option<DataType>) -> (r: Result<
        Option<FileType>,
        SauceError,
    >) {
        let byte: u8 = *self;
        match *datatype {
            Some(DataType::Character) => match byte {
                0 => Ok(Some(FileType::ASCII)),
                1 => Ok(Some(FileType::ANSI)),
                2 => Ok(Some(FileType::ANSIMation)),
                3 => Ok(Some(FileType::RIPScript)),
                4 => Ok(Some(FileType::PCBoard)),
                5 => Ok(Some(FileType::Avatar)),
                6 => Ok(Some(FileType::HTML)),
                7 => Ok(Some(FileType::Source)),
                8 => Ok(Some(FileType::TundraDraw)),
                _ => Err(SauceError::InvalidFileType),
            },
            Some(DataType::Bitmap) => match byte {
                0 => Ok(Some(FileType::GIF)),
                1 => Ok(Some(FileType::PCX)),
                2 => Ok(Some(FileType::LBMOrIFF)),
                3 => Ok(Some(FileType::TGA)),
                4 => Ok(Some(FileType::FLI)),
                5 => Ok(Some(FileType::FLC)),
                6 => Ok(Some(FileType::BMP)),
                7 => Ok(Some(FileType::GL)),
                8 => Ok(Some(FileType::DL)),
                9 => Ok(Some(FileType::WPGBitmap)),
                10 => Ok(Some(FileType::PNG)),
                11 => Ok(Some(FileType::JPG)),
                12 => Ok(Some(FileType::MPG)),
                13 => Ok(Some(FileType::AVI)),
                _ => Err(SauceError::InvalidFileType),
            },
            Some(DataType::Vector) => match byte {
                0 => Ok(Some(FileType::DXF)),
                1 => Ok(Some(FileType::DWG)),
                2 => Ok(Some(FileType::WPGVector)),
                3 => Ok(Some(FileType::Studio3DS)),
                _ => Err(SauceError::InvalidFileType),
            },
            Some(DataType::Audio) => match byte {
                0 => Ok(Some(FileType::MOD)),
                1 => Ok(Some(FileType::Renaissance669)),
                2 => Ok(Some(FileType::STM)),
                3 => Ok(Some(FileType::S3M)),
                4 => Ok(Some(FileType::MTM)),
                5 => Ok(Some(FileType::FAR)),
                6 => Ok(Some(FileType::ULT)),
                7 => Ok(Some(FileType::AMF)),
                8 => Ok(Some(FileType::DMF)),
                9 => Ok(Some(FileType::OKT)),
                10 => Ok(Some(FileType::ROL)),
                11 => Ok(Some(FileType::CMF)),
                12 => Ok(Some(FileType::MID)),
                13 => Ok(Some(FileType::SADT)),
                14 => Ok(Some(FileType::VOC)),
                15 => Ok(Some(FileType::WAV)),
                16 => Ok(Some(FileType::SMP8)),
                17 => Ok(Some(FileType::SMP8S)),
                18 => Ok(Some(FileType::SMP16)),
                19 => Ok(Some(FileType::SMP16S)),
                20 => Ok(Some(FileType::PATCH8)),
                21 => Ok(Some(FileType::PATCH16)),
                22 => Ok(Some(FileType::XM)),
                23 => Ok(Some(FileType::HSC)),
                24 => Ok(Some(FileType::IT)),
                _ => Err(SauceError::InvalidFileType),
            },
            Some(DataType::Archive) => match byte {
                0 => Ok(Some(FileType::ZIP)),
                1 => Ok(Some(FileType::ARJ)),
                2 => Ok(Some(FileType::LZH)),
                3 => Ok(Some(FileType::ARC)),
                4 => Ok(Some(FileType::TAR)),
                5 => Ok(Some(FileType::ZOO)),
                6 => Ok(Some(FileType::RAR)),
                7 => Ok(Some(FileType::UC2)),
                8 => Ok(Some(FileType::PAK)),
                9 => Ok(Some(FileType::SQZ)),
                _ => Err(SauceError::InvalidFileType),
            },
            Some(DataType::BinaryText) => Ok(Some(FileType::Variable(byte))),
            Some(DataType::XBin) => if byte == 0 {
                Ok(Some(FileType::ExtendedBin))
            } else {
                Err(SauceError::InvalidFileType)
            },
            Some(DataType::Executable) => if byte == 0 {
                Ok(None)
            } else {
                Err(SauceError::InvalidFileType)
            },
            None => Ok(None),
        }
    }
}

} // verus!
