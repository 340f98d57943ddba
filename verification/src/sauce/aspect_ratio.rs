//! The shape of a pixel.

use super::error::SauceError;
use crate::string::same_text;
use vstd::prelude::*;

verus! {

/// Whether a viewer should stretch the image as displays of the time did.
#[derive(Debug, Clone, Copy, PartialEq, Eq, Structural)]
pub enum AspectRatio {
    Modern,
    Legacy,
}

impl Default for AspectRatio {
    fn default() -> (r: AspectRatio)
        ensures
            r == AspectRatio::Modern,
    {
        AspectRatio::Modern
    }
}

/// The two aspect ratio bits of a flags byte.
pub open spec fn aspect_ratio_bits(flags: u8) -> u8 {
    (flags >> 3) & 3
}

/// The aspect ratio that two bits stand for.
pub open spec fn aspect_ratio_of(bits: u8) -> Result<Option<AspectRatio>, SauceError> {
    match bits {
        0 => Ok(None),
        1 => Ok(Some(AspectRatio::Legacy)),
        2 => Ok(Some(AspectRatio::Modern)),
        _ => Err(SauceError::InvalidAspectRatioValue),
    }
}

/// What an optional aspect ratio adds to a flags byte.
pub open spec fn aspect_ratio_flag(aspect_ratio: Option<AspectRatio>) -> u8 {
    match aspect_ratio {
        None => 0,
        Some(AspectRatio::Legacy) => 8,
        Some(AspectRatio::Modern) => 16,
    }
}

impl AspectRatio {
    /// The name of the aspect ratio.
    pub open spec fn name(self) -> Seq<char> {
        match self {
            AspectRatio::Modern => "modern"@,
            AspectRatio::Legacy => "legacy"@,
        }
    }

    /// The aspect ratio with the given name: an error where no aspect ratio has the name.
    pub open spec fn named(name: Seq<char>) -> Result<AspectRatio, SauceError> {
        if name == "modern"@ {
            Ok(AspectRatio::Modern)
        } else if name == "legacy"@ {
            Ok(AspectRatio::Legacy)
        } else {
            Err(SauceError::InvalidAspectRatioValue)
        }
    }

    /// The name of the aspect ratio.
    pub fn to_string(&self) -> (r: String)
        ensures
            r@ == self.name(),
    {
        match self {
            AspectRatio::Modern => "modern".to_owned(),
            AspectRatio::Legacy => "legacy".to_owned(),
        }
    }

    /// The aspect ratio with the given name.
    pub fn from_name(name: &str) -> (r: Result<AspectRatio, SauceError>)
        ensures
            r == AspectRatio::named(name@),
    {
        if same_text(name, "modern") {
            Ok(AspectRatio::Modern)
        } else if same_text(name, "legacy") {
            Ok(AspectRatio::Legacy)
        } else {
            Err(SauceError::InvalidAspectRatioValue)
        }
    }

    /// Every aspect ratio is found again by its name.
    pub proof fn lemma_named(self)
        ensures
            AspectRatio::named(self.name()) == Ok::<_, SauceError>(self),
    {
        reveal_strlit("modern");
        reveal_strlit("legacy");
        assert("modern"@.len() == 6);
        assert("legacy"@.len() == 6);
        assert("modern"@[0] != "legacy"@[0]);
    }
}

impl std::str::FromStr for AspectRatio {
    type Err = SauceError;

    fn from_str(name: &str) -> (r: Result<AspectRatio, SauceError>)
        ensures
            r == AspectRatio::named(name@),
    {
        AspectRatio::from_name(name)
    }
}

} // verus!
