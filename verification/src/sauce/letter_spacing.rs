//! The width of a character cell.

use super::error::SauceError;
use crate::string::same_text;
use vstd::prelude::*;

verus! {

/// The width at which a viewer should draw each character cell.
#[derive(Debug, Clone, Copy, PartialEq, Eq, Structural)]
pub enum LetterSpacing {
    EightPixels,
    NinePixels,
}

impl Default for LetterSpacing {
    fn default() -> (r: LetterSpacing)
        ensures
            r == LetterSpacing::EightPixels,
    {
        LetterSpacing::EightPixels
    }
}

/// The two letter spacing bits of a flags byte.
pub open spec fn letter_spacing_bits(flags: u8) -> u8 {
    (flags >> 1) & 3
}

/// The letter spacing that two bits stand for.
pub open spec fn letter_spacing_of(bits: u8) -> Result<Option<LetterSpacing>, SauceError> {
    match bits {
        0 => Ok(None),
        1 => Ok(Some(LetterSpacing::EightPixels)),
        2 => Ok(Some(LetterSpacing::NinePixels)),
        _ => Err(SauceError::InvalidLetterSpacingValue),
    }
}

/// What an optional letter spacing adds to a flags byte.
pub open spec fn letter_spacing_flag(letter_spacing: Option<LetterSpacing>) -> u8 {
    match letter_spacing {
        None => 0,
        Some(LetterSpacing::EightPixels) => 2,
        Some(LetterSpacing::NinePixels) => 4,
    }
}

impl LetterSpacing {
    /// The name of the letter spacing.
    pub open spec fn name(self) -> Seq<char> {
        match self {
            LetterSpacing::EightPixels => "8px"@,
            LetterSpacing::NinePixels => "9px"@,
        }
    }

    /// The letter spacing with the given name: an error where no letter spacing has the name.
    pub open spec fn named(name: Seq<char>) -> Result<LetterSpacing, SauceError> {
        if name == "8px"@ {
            Ok(LetterSpacing::EightPixels)
        } else if name == "9px"@ {
            Ok(LetterSpacing::NinePixels)
        } else {
            Err(SauceError::InvalidLetterSpacingValue)
        }
    }

    /// The name of the letter spacing.
    pub fn to_string(&self) -> (r: String)
        ensures
            r@ == self.name(),
    {
        match self {
            LetterSpacing::EightPixels => "8px".to_owned(),
            LetterSpacing::NinePixels => "9px".to_owned(),
        }
    }

    /// The letter spacing with the given name.
    pub fn from_name(name: &str) -> (r: Result<LetterSpacing, SauceError>)
        ensures
            r == LetterSpacing::named(name@),
    {
        if same_text(name, "8px") {
            Ok(LetterSpacing::EightPixels)
        } else if same_text(name, "9px") {
            Ok(LetterSpacing::NinePixels)
        } else {
            Err(SauceError::InvalidLetterSpacingValue)
        }
    }

    /// Every letter spacing is found again by its name.
    pub proof fn lemma_named(self)
        ensures
            LetterSpacing::named(self.name()) == Ok::<_, SauceError>(self),
    {
        reveal_strlit("8px");
        reveal_strlit("9px");
        assert("8px"@.len() == 3);
        assert("9px"@.len() == 3);
        assert("8px"@[0] != "9px"@[0]);
    }
}

impl std::str::FromStr for LetterSpacing {
    type Err = SauceError;

    fn from_str(name: &str) -> (r: Result<LetterSpacing, SauceError>)
        ensures
            r == LetterSpacing::named(name@),
    {
        LetterSpacing::from_name(name)
    }
}

} // verus!
