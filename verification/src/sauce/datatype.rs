//! The kind of file that a trailer describes.

use super::error::SauceError;
use crate::string::same_text;
use vstd::prelude::*;

verus! {

/// The kind of file that a trailer describes.
#[derive(Debug, Clone, Copy, PartialEq, Eq, Structural)]
pub enum DataType {
    Character,
    Bitmap,
    Vector,
    Audio,
    BinaryText,
    XBin,
    Archive,
    Executable,
}

impl DataType {
    /// The byte that stands for this datatype in a record.
    pub open spec fn code(self) -> u8 {
        match self {
            DataType::Character => 1,
            DataType::Bitmap => 2,
            DataType::Vector => 3,
            DataType::Audio => 4,
            DataType::BinaryText => 5,
            DataType::XBin => 6,
            DataType::Archive => 7,
            DataType::Executable => 8,
        }
    }

    /// The byte that stands for this datatype in a record.
    pub fn as_u8(&self) -> (r: u8)
        ensures
            r == self.code(),
            1 <= r <= 8,
    {
        match self {
            DataType::Character => 1,
            DataType::Bitmap => 2,
            DataType::Vector => 3,
            DataType::Audio => 4,
            DataType::BinaryText => 5,
            DataType::XBin => 6,
            DataType::Archive => 7,
            DataType::Executable => 8,
        }
    }
}

/// The datatype that a record's datatype byte stands for: none for 0, an
/// error for a byte above 8.
pub open spec fn datatype_of(byte: u8) -> Result<Option<DataType>, SauceError> {
    match byte {
        0 => Ok(None),
        1 => Ok(Some(DataType::Character)),
        2 => Ok(Some(DataType::Bitmap)),
        3 => Ok(Some(DataType::Vector)),
        4 => Ok(Some(DataType::Audio)),
        5 => Ok(Some(DataType::BinaryText)),
        6 => Ok(Some(DataType::XBin)),
        7 => Ok(Some(DataType::Archive)),
        8 => Ok(Some(DataType::Executable)),
        _ => Err(SauceError::InvalidDataType),
    }
}

/// The byte written for an optional datatype: 0 where there is none.
pub open spec fn datatype_code(datatype: Option<DataType>) -> u8 {
    match datatype {
        Some(d) => d.code(),
        None => 0,
    }
}

/// Reading a datatype byte inverts writing it, and nothing but the codes 0
/// to 8 is read as a datatype.
pub proof fn lemma_datatype_codes(datatype: Option<DataType>, byte: u8)
    ensures
        datatype_of(datatype_code(datatype)) == Ok::<_, SauceError>(datatype),
        datatype_of(byte) is Ok <==> byte <= 8,
        datatype_of(byte) == Ok::<_, SauceError>(datatype) ==> datatype_code(datatype) == byte,
{
}

/// A byte read as a datatype code.
pub trait AsDataType {
    /// The byte to read.
    spec fn datatype_byte(&self) -> u8;

    /// The datatype that the byte stands for.
    fn as_datatype(&self) -> (r: Result<Option<DataType>, SauceError>)
        ensures
            r == datatype_of(self.datatype_byte()),
    ;
}

impl AsDataType for u8 {
    open spec fn datatype_byte(&self) -> u8 {
        *self
    }

    fn as_datatype(&self) -> (r: Result<Option<DataType>, SauceError>) {
        match *self {
            0 => Ok(None),
            1 => Ok(Some(DataType::Character)),
            2 => Ok(Some(DataType::Bitmap)),
            3 => Ok(Some(DataType::Vector)),
            4 => Ok(Some(DataType::Audio)),
            5 => Ok(Some(DataType::BinaryText)),
            6 => Ok(Some(DataType::XBin)),
            7 => Ok(Some(DataType::Archive)),
            8 => Ok(Some(DataType::Executable)),
            _ => Err(SauceError::InvalidDataType),
        }
    }
}

impl DataType {
    /// The name of the datatype.
    pub open spec fn name(self) -> Seq<char> {
        match self {
            DataType::Character => "Character"@,
            DataType::Bitmap => "Bitmap"@,
            DataType::Vector => "Vector"@,
            DataType::Audio => "Audio"@,
            DataType::BinaryText => "Binary Text"@,
            DataType::XBin => "XBin"@,
            DataType::Archive => "Archive"@,
            DataType::Executable => "Executable"@,
        }
    }

    /// The datatype with the given name: an error where no datatype has the name.
    pub open spec fn named(name: Seq<char>) -> Result<DataType, SauceError> {
        if name == "Character"@ {
            Ok(DataType::Character)
        } else if name == "Bitmap"@ {
            Ok(DataType::Bitmap)
        } else if name == "Vector"@ {
            Ok(DataType::Vector)
        } else if name == "Audio"@ {
            Ok(DataType::Audio)
        } else if name == "Binary Text"@ {
            Ok(DataType::BinaryText)
        } else if name == "XBin"@ {
            Ok(DataType::XBin)
        } else if name == "Archive"@ {
            Ok(DataType::Archive)
        } else if name == "Executable"@ {
            Ok(DataType::Executable)
        } else {
            Err(SauceError::InvalidDataType)
        }
    }

    /// The name of the datatype.
    pub fn to_string(&self) -> (r: String)
        ensures
            r@ == self.name(),
    {
        match self {
            DataType::Character => "Character".to_owned(),
            DataType::Bitmap => "Bitmap".to_owned(),
            DataType::Vector => "Vector".to_owned(),
            DataType::Audio => "Audio".to_owned(),
            DataType::BinaryText => "Binary Text".to_owned(),
            DataType::XBin => "XBin".to_owned(),
            DataType::Archive => "Archive".to_owned(),
            DataType::Executable => "Executable".to_owned(),
        }
    }

    /// The datatype with the given name.
    pub fn from_name(name: &str) -> (r: Result<DataType, SauceError>)
        ensures
            r == DataType::named(name@),
    {
        if same_text(name, "Character") {
            Ok(DataType::Character)
        } else if same_text(name, "Bitmap") {
            Ok(DataType::Bitmap)
        } else if same_text(name, "Vector") {
            Ok(DataType::Vector)
        } else if same_text(name, "Audio") {
            Ok(DataType::Audio)
        } else if same_text(name, "Binary Text") {
            Ok(DataType::BinaryText)
        } else if same_text(name, "XBin") {
            Ok(DataType::XBin)
        } else if same_text(name, "Archive") {
            Ok(DataType::Archive)
        } else if same_text(name, "Executable") {
            Ok(DataType::Executable)
        } else {
            Err(SauceError::InvalidDataType)
        }
    }

    /// Every datatype is found again by its name.
    pub proof fn lemma_named(self)
        ensures
            DataType::named(self.name()) == Ok::<_, SauceError>(self),
    {
        reveal_strlit("Character");
        reveal_strlit("Bitmap");
        reveal_strlit("Vector");
        reveal_strlit("Audio");
        reveal_strlit("Binary Text");
        reveal_strlit("XBin");
        reveal_strlit("Archive");
        reveal_strlit("Executable");
        assert("Character"@.len() == 9);
        assert("Bitmap"@.len() == 6);
        assert("Vector"@.len() == 6);
        assert("Audio"@.len() == 5);
        assert("Binary Text"@.len() == 11);
        assert("XBin"@.len() == 4);
        assert("Archive"@.len() == 7);
        assert("Executable"@.len() == 10);
        assert("Bitmap"@[0] != "Vector"@[0]);
    }
}

impl std::str::FromStr for DataType {
    type Err = SauceError;

    fn from_str(name: &str) -> (r: Result<DataType, SauceError>)
        ensures
            r == DataType::named(name@),
    {
        DataType::from_name(name)
    }
}

} // verus!
