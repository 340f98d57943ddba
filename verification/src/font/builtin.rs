//! The fonts that are known by name.

use super::error::FontError;
use super::{bits_of, glyph_masks, masks, Font};
use crate::string::same_text;
use vstd::prelude::*;

verus! {

/// One table of glyph bitmasks among those that are known by name. Several
/// names may stand for one table.
#[derive(Debug, Clone, Copy, PartialEq, Eq, Structural)]
pub enum FontTable {
    Cp437F16,
    Cp437F08,
    Cp437F19,
    Cp437F14,
    Cp737F16,
    Cp737F08,
    Cp737F14,
    Cp775F16,
    Cp775F08,
    Cp775F14,
    Cp850F16,
    Cp850F08,
    Cp850F19,
    Cp850F14,
    Cp852F16,
    Cp852F08,
    Cp852F19,
    Cp852F14,
    Cp855F16,
    Cp855F08,
    Cp855F14,
    Cp857F16,
    Cp857F08,
    Cp857F14,
    Cp860F16,
    Cp860F08,
    Cp860F19,
    Cp860F14,
    Cp861F16,
    Cp861F08,
    Cp861F19,
    Cp861F14,
    Cp862F16,
    Cp862F08,
    Cp862F14,
    Cp863F16,
    Cp863F08,
    Cp863F19,
    Cp863F14,
    Cp864F16,
    Cp864F08,
    Cp864F14,
    Cp865F16,
    Cp865F08,
    Cp865F19,
    Cp865F14,
    Cp869F16,
    Cp869F08,
    Cp869F14,
    Cp866F16,
    Cp866F08,
    Cp866F14,
    TopazA500F16,
    TopazPlusA500F16,
    TopazA1200F16,
    TopazPlusA1200F16,
    P0tNoodleF16,
    MicroKnightF16,
    MicroKnightPlusF16,
    MoSoulF16,
    PetsciiUnshifted,
    PetsciiShifted,
}

/// The width of the glyphs of every table.
pub const TABLE_WIDTH: usize = 8;

/// The number of glyphs in every table.
pub const TABLE_LENGTH: usize = 256;

impl FontTable {
    /// The height of the table's glyphs.
    pub open spec fn height(self) -> usize {
        match self {
            FontTable::Cp437F16
            | FontTable::Cp737F16
            | FontTable::Cp775F16
            | FontTable::Cp850F16
            | FontTable::Cp852F16
            | FontTable::Cp855F16
            | FontTable::Cp857F16
            | FontTable::Cp860F16
            | FontTable::Cp861F16
            | FontTable::Cp862F16
            | FontTable::Cp863F16
            | FontTable::Cp864F16
            | FontTable::Cp865F16
            | FontTable::Cp869F16
            | FontTable::Cp866F16
            | FontTable::TopazA500F16
            | FontTable::TopazPlusA500F16
            | FontTable::TopazA1200F16
            | FontTable::TopazPlusA1200F16
            | FontTable::P0tNoodleF16
            | FontTable::MicroKnightF16
            | FontTable::MicroKnightPlusF16
            | FontTable::MoSoulF16 => 16,
            FontTable::Cp437F08
            | FontTable::Cp737F08
            | FontTable::Cp775F08
            | FontTable::Cp850F08
            | FontTable::Cp852F08
            | FontTable::Cp855F08
            | FontTable::Cp857F08
            | FontTable::Cp860F08
            | FontTable::Cp861F08
            | FontTable::Cp862F08
            | FontTable::Cp863F08
            | FontTable::Cp864F08
            | FontTable::Cp865F08
            | FontTable::Cp869F08
            | FontTable::Cp866F08
            | FontTable::PetsciiUnshifted
            | FontTable::PetsciiShifted => 8,
            FontTable::Cp437F19
            | FontTable::Cp850F19
            | FontTable::Cp852F19
            | FontTable::Cp860F19
            | FontTable::Cp861F19
            | FontTable::Cp863F19
            | FontTable::Cp865F19 => 19,
            FontTable::Cp437F14
            | FontTable::Cp737F14
            | FontTable::Cp775F14
            | FontTable::Cp850F14
            | FontTable::Cp852F14
            | FontTable::Cp855F14
            | FontTable::Cp857F14
            | FontTable::Cp860F14
            | FontTable::Cp861F14
            | FontTable::Cp862F14
            | FontTable::Cp863F14
            | FontTable::Cp864F14
            | FontTable::Cp865F14
            | FontTable::Cp869F14
            | FontTable::Cp866F14 => 14,
        }
    }

    /// The height of the table's glyphs.
    pub fn glyph_height(&self) -> (r: usize)
        ensures
            r == self.height(),
            0 < r <= 19,
    {
        match *self {
            FontTable::Cp437F16
            | FontTable::Cp737F16
            | FontTable::Cp775F16
            | FontTable::Cp850F16
            | FontTable::Cp852F16
            | FontTable::Cp855F16
            | FontTable::Cp857F16
            | FontTable::Cp860F16
            | FontTable::Cp861F16
            | FontTable::Cp862F16
            | FontTable::Cp863F16
            | FontTable::Cp864F16
            | FontTable::Cp865F16
            | FontTable::Cp869F16
            | FontTable::Cp866F16
            | FontTable::TopazA500F16
            | FontTable::TopazPlusA500F16
            | FontTable::TopazA1200F16
            | FontTable::TopazPlusA1200F16
            | FontTable::P0tNoodleF16
            | FontTable::MicroKnightF16
            | FontTable::MicroKnightPlusF16
            | FontTable::MoSoulF16 => 16,
            FontTable::Cp437F08
            | FontTable::Cp737F08
            | FontTable::Cp775F08
            | FontTable::Cp850F08
            | FontTable::Cp852F08
            | FontTable::Cp855F08
            | FontTable::Cp857F08
            | FontTable::Cp860F08
            | FontTable::Cp861F08
            | FontTable::Cp862F08
            | FontTable::Cp863F08
            | FontTable::Cp864F08
            | FontTable::Cp865F08
            | FontTable::Cp869F08
            | FontTable::Cp866F08
            | FontTable::PetsciiUnshifted
            | FontTable::PetsciiShifted => 8,
            FontTable::Cp437F19
            | FontTable::Cp850F19
            | FontTable::Cp852F19
            | FontTable::Cp860F19
            | FontTable::Cp861F19
            | FontTable::Cp863F19
            | FontTable::Cp865F19 => 19,
            FontTable::Cp437F14
            | FontTable::Cp737F14
            | FontTable::Cp775F14
            | FontTable::Cp850F14
            | FontTable::Cp852F14
            | FontTable::Cp855F14
            | FontTable::Cp857F14
            | FontTable::Cp860F14
            | FontTable::Cp861F14
            | FontTable::Cp862F14
            | FontTable::Cp863F14
            | FontTable::Cp864F14
            | FontTable::Cp865F14
            | FontTable::Cp869F14
            | FontTable::Cp866F14 => 14,
        }
    }

    /// The number of bytes in the table.
    pub open spec fn size(self) -> int {
        256 * self.height()
    }

    /// The table that a font name stands for: an error where the name is not
    /// known.
    pub open spec fn named(name: Seq<char>) -> Result<FontTable, FontError> {
        if name == "IBM VGA"@ {
            Ok(FontTable::Cp437F16)
        } else if name == "IBM VGA50"@ {
            Ok(FontTable::Cp437F08)
        } else if name == "IBM VGA25G"@ {
            Ok(FontTable::Cp437F19)
        } else if name == "IBM EGA"@ {
            Ok(FontTable::Cp437F14)
        } else if name == "IBM EGA43"@ {
            Ok(FontTable::Cp437F08)
        } else if name == "IBM VGA 437"@ {
            Ok(FontTable::Cp437F16)
        } else if name == "IBM VGA50 437"@ {
            Ok(FontTable::Cp437F08)
        } else if name == "IBM VGA25G 437"@ {
            Ok(FontTable::Cp437F19)
        } else if name == "IBM EGA 437"@ {
            Ok(FontTable::Cp437F14)
        } else if name == "IBM EGA43 437"@ {
            Ok(FontTable::Cp437F08)
        } else if name == "IBM VGA 720"@ {
            Ok(FontTable::Cp437F16)
        } else if name == "IBM VGA50 720"@ {
            Ok(FontTable::Cp437F08)
        } else if name == "IBM VGA25G 720"@ {
            Ok(FontTable::Cp437F19)
        } else if name == "IBM EGA 720"@ {
            Ok(FontTable::Cp437F14)
        } else if name == "IBM EGA43 720"@ {
            Ok(FontTable::Cp437F08)
        } else if name == "IBM VGA 737"@ {
            Ok(FontTable::Cp737F16)
        } else if name == "IBM VGA50 737"@ {
            Ok(FontTable::Cp737F08)
        } else if name == "IBM VGA25G 737"@ {
            Ok(FontTable::Cp437F19)
        } else if name == "IBM EGA 737"@ {
            Ok(FontTable::Cp737F14)
        } else if name == "IBM EGA43 737"@ {
            Ok(FontTable::Cp737F08)
        } else if name == "IBM VGA 775"@ {
            Ok(FontTable::Cp775F16)
        } else if name == "IBM VGA50 775"@ {
            Ok(FontTable::Cp775F08)
        } else if name == "IBM VGA25G 775"@ {
            Ok(FontTable::Cp437F19)
        } else if name == "IBM EGA 775"@ {
            Ok(FontTable::Cp775F14)
        } else if name == "IBM EGA43 775"@ {
            Ok(FontTable::Cp775F08)
        } else if name == "IBM VGA 819"@ {
            Ok(FontTable::Cp437F16)
        } else if name == "IBM VGA50 819"@ {
            Ok(FontTable::Cp437F08)
        } else if name == "IBM VGA25G 819"@ {
            Ok(FontTable::Cp437F19)
        } else if name == "IBM EGA 819"@ {
            Ok(FontTable::Cp437F14)
        } else if name == "IBM EGA43 819"@ {
            Ok(FontTable::Cp437F08)
        } else if name == "IBM VGA 850"@ {
            Ok(FontTable::Cp850F16)
        } else if name == "IBM VGA50 850"@ {
            Ok(FontTable::Cp850F08)
        } else if name == "IBM VGA25G 850"@ {
            Ok(FontTable::Cp850F19)
        } else if name == "IBM EGA 850"@ {
            Ok(FontTable::Cp850F14)
        } else if name == "IBM EGA43 850"@ {
            Ok(FontTable::Cp850F08)
        } else if name == "IBM VGA 852"@ {
            Ok(FontTable::Cp852F16)
        } else if name == "IBM VGA50 852"@ {
            Ok(FontTable::Cp852F08)
        } else if name == "IBM VGA25G 852"@ {
            Ok(FontTable::Cp852F19)
        } else if name == "IBM EGA 852"@ {
            Ok(FontTable::Cp852F14)
        } else if name == "IBM EGA43 852"@ {
            Ok(FontTable::Cp852F08)
        } else if name == "IBM VGA 855"@ {
            Ok(FontTable::Cp855F16)
        } else if name == "IBM VGA50 855"@ {
            Ok(FontTable::Cp855F08)
        } else if name == "IBM VGA25G 855"@ {
            Ok(FontTable::Cp437F19)
        } else if name == "IBM EGA 855"@ {
            Ok(FontTable::Cp855F14)
        } else if name == "IBM EGA43 855"@ {
            Ok(FontTable::Cp855F08)
        } else if name == "IBM VGA 857"@ {
            Ok(FontTable::Cp857F16)
        } else if name == "IBM VGA50 857"@ {
            Ok(FontTable::Cp857F08)
        } else if name == "IBM VGA25G 857"@ {
            Ok(FontTable::Cp437F19)
        } else if name == "IBM EGA 857"@ {
            Ok(FontTable::Cp857F14)
        } else if name == "IBM EGA43 857"@ {
            Ok(FontTable::Cp857F08)
        } else if name == "IBM VGA 858"@ {
            Ok(FontTable::Cp437F16)
        } else if name == "IBM VGA50 858"@ {
            Ok(FontTable::Cp437F08)
        } else if name == "IBM VGA25G 858"@ {
            Ok(FontTable::Cp437F19)
        } else if name == "IBM EGA 858"@ {
            Ok(FontTable::Cp437F14)
        } else if name == "IBM EGA43 858"@ {
            Ok(FontTable::Cp437F08)
        } else if name == "IBM VGA 860"@ {
            Ok(FontTable::Cp860F16)
        } else if name == "IBM VGA50 860"@ {
            Ok(FontTable::Cp860F08)
        } else if name == "IBM VGA25G 860"@ {
            Ok(FontTable::Cp860F19)
        } else if name == "IBM EGA 860"@ {
            Ok(FontTable::Cp860F14)
        } else if name == "IBM EGA43 860"@ {
            Ok(FontTable::Cp860F08)
        } else if name == "IBM VGA 861"@ {
            Ok(FontTable::Cp861F16)
        } else if name == "IBM VGA50 861"@ {
            Ok(FontTable::Cp861F08)
        } else if name == "IBM VGA25G 861"@ {
            Ok(FontTable::Cp861F19)
        } else if name == "IBM EGA 861"@ {
            Ok(FontTable::Cp861F14)
        } else if name == "IBM EGA43 861"@ {
            Ok(FontTable::Cp861F08)
        } else if name == "IBM VGA 862"@ {
            Ok(FontTable::Cp862F16)
        } else if name == "IBM VGA50 862"@ {
            Ok(FontTable::Cp862F08)
        } else if name == "IBM VGA25G 862"@ {
            Ok(FontTable::Cp437F19)
        } else if name == "IBM EGA 862"@ {
            Ok(FontTable::Cp862F14)
        } else if name == "IBM EGA43 862"@ {
            Ok(FontTable::Cp862F08)
        } else if name == "IBM VGA 863"@ {
            Ok(FontTable::Cp863F16)
        } else if name == "IBM VGA50 863"@ {
            Ok(FontTable::Cp863F08)
        } else if name == "IBM VGA25G 863"@ {
            Ok(FontTable::Cp863F19)
        } else if name == "IBM EGA 863"@ {
            Ok(FontTable::Cp863F14)
        } else if name == "IBM EGA43 863"@ {
            Ok(FontTable::Cp863F08)
        } else if name == "IBM VGA 864"@ {
            Ok(FontTable::Cp864F16)
        } else if name == "IBM VGA50 864"@ {
            Ok(FontTable::Cp864F08)
        } else if name == "IBM VGA25G 864"@ {
            Ok(FontTable::Cp437F19)
        } else if name == "IBM EGA 864"@ {
            Ok(FontTable::Cp864F14)
        } else if name == "IBM EGA43 864"@ {
            Ok(FontTable::Cp864F08)
        } else if name == "IBM VGA 865"@ {
            Ok(FontTable::Cp865F16)
        } else if name == "IBM VGA50 865"@ {
            Ok(FontTable::Cp865F08)
        } else if name == "IBM VGA25G 865"@ {
            Ok(FontTable::Cp865F19)
        } else if name == "IBM EGA 865"@ {
            Ok(FontTable::Cp865F14)
        } else if name == "IBM EGA43 865"@ {
            Ok(FontTable::Cp865F08)
        } else if name == "IBM VGA 869"@ {
            Ok(FontTable::Cp869F16)
        } else if name == "IBM VGA50 869"@ {
            Ok(FontTable::Cp869F08)
        } else if name == "IBM VGA25G 869"@ {
            Ok(FontTable::Cp437F19)
        } else if name == "IBM EGA 869"@ {
            Ok(FontTable::Cp869F14)
        } else if name == "IBM EGA43 869"@ {
            Ok(FontTable::Cp869F08)
        } else if name == "IBM VGA 872"@ {
            Ok(FontTable::Cp437F16)
        } else if name == "IBM VGA50 872"@ {
            Ok(FontTable::Cp437F08)
        } else if name == "IBM VGA25G 872"@ {
            Ok(FontTable::Cp437F19)
        } else if name == "IBM EGA 872"@ {
            Ok(FontTable::Cp437F14)
        } else if name == "IBM EGA43 872"@ {
            Ok(FontTable::Cp437F08)
        } else if name == "IBM VGA KAM"@ {
            Ok(FontTable::Cp437F16)
        } else if name == "IBM VGA50 KAM"@ {
            Ok(FontTable::Cp437F08)
        } else if name == "IBM VGA25G KAM"@ {
            Ok(FontTable::Cp437F19)
        } else if name == "IBM EGA KAM"@ {
            Ok(FontTable::Cp437F14)
        } else if name == "IBM EGA43 KAM"@ {
            Ok(FontTable::Cp437F08)
        } else if name == "IBM VGA MAZ"@ {
            Ok(FontTable::Cp437F16)
        } else if name == "IBM VGA50 MAZ"@ {
            Ok(FontTable::Cp437F08)
        } else if name == "IBM VGA25G MAZ"@ {
            Ok(FontTable::Cp437F19)
        } else if name == "IBM EGA MAZ"@ {
            Ok(FontTable::Cp437F14)
        } else if name == "IBM EGA43 MAZ"@ {
            Ok(FontTable::Cp437F08)
        } else if name == "IBM VGA MIK"@ {
            Ok(FontTable::Cp866F16)
        } else if name == "IBM VGA50 MIK"@ {
            Ok(FontTable::Cp866F08)
        } else if name == "IBM VGA25G MIK"@ {
            Ok(FontTable::Cp437F19)
        } else if name == "IBM EGA MIK"@ {
            Ok(FontTable::Cp866F14)
        } else if name == "IBM EGA43 MIK"@ {
            Ok(FontTable::Cp866F08)
        } else if name == "IBM VGA 667"@ {
            Ok(FontTable::Cp437F16)
        } else if name == "IBM VGA50 667"@ {
            Ok(FontTable::Cp437F08)
        } else if name == "IBM VGA25G 667"@ {
            Ok(FontTable::Cp437F19)
        } else if name == "IBM EGA 667"@ {
            Ok(FontTable::Cp437F14)
        } else if name == "IBM EGA43 667"@ {
            Ok(FontTable::Cp437F08)
        } else if name == "IBM VGA 790"@ {
            Ok(FontTable::Cp437F16)
        } else if name == "IBM VGA50 790"@ {
            Ok(FontTable::Cp437F08)
        } else if name == "IBM VGA25G 790"@ {
            Ok(FontTable::Cp437F19)
        } else if name == "IBM EGA 790"@ {
            Ok(FontTable::Cp437F14)
        } else if name == "IBM EGA43 790"@ {
            Ok(FontTable::Cp437F08)
        } else if name == "IBM VGA 866"@ {
            Ok(FontTable::Cp866F16)
        } else if name == "IBM VGA50 866"@ {
            Ok(FontTable::Cp866F08)
        } else if name == "IBM VGA25G 866"@ {
            Ok(FontTable::Cp437F19)
        } else if name == "IBM EGA 866"@ {
            Ok(FontTable::Cp866F14)
        } else if name == "IBM EGA43 866"@ {
            Ok(FontTable::Cp866F08)
        } else if name == "IBM VGA 867"@ {
            Ok(FontTable::Cp437F16)
        } else if name == "IBM VGA50 867"@ {
            Ok(FontTable::Cp437F08)
        } else if name == "IBM VGA25G 867"@ {
            Ok(FontTable::Cp437F19)
        } else if name == "IBM EGA 867"@ {
            Ok(FontTable::Cp437F14)
        } else if name == "IBM EGA43 867"@ {
            Ok(FontTable::Cp437F08)
        } else if name == "IBM VGA 895"@ {
            Ok(FontTable::Cp437F16)
        } else if name == "IBM VGA50 895"@ {
            Ok(FontTable::Cp437F08)
        } else if name == "IBM VGA25G 895"@ {
            Ok(FontTable::Cp437F19)
        } else if name == "IBM EGA 895"@ {
            Ok(FontTable::Cp437F14)
        } else if name == "IBM EGA43 895"@ {
            Ok(FontTable::Cp437F08)
        } else if name == "IBM VGA 991"@ {
            Ok(FontTable::Cp437F16)
        } else if name == "IBM VGA50 991"@ {
            Ok(FontTable::Cp437F08)
        } else if name == "IBM VGA25G 991"@ {
            Ok(FontTable::Cp437F19)
        } else if name == "IBM EGA 991"@ {
            Ok(FontTable::Cp437F14)
        } else if name == "IBM EGA43 991"@ {
            Ok(FontTable::Cp437F08)
        } else if name == "Amiga Topaz 1"@ {
            Ok(FontTable::TopazA500F16)
        } else if name == "Amiga Topaz 1+"@ {
            Ok(FontTable::TopazPlusA500F16)
        } else if name == "Amiga Topaz 2"@ {
            Ok(FontTable::TopazA1200F16)
        } else if name == "Amiga Topaz 2+"@ {
            Ok(FontTable::TopazPlusA1200F16)
        } else if name == "Amiga P0T-NOoDLE"@ {
            Ok(FontTable::P0tNoodleF16)
        } else if name == "Amiga MicroKnight"@ {
            Ok(FontTable::MicroKnightF16)
        } else if name == "Amiga MicroKnight+"@ {
            Ok(FontTable::MicroKnightPlusF16)
        } else if name == "Amiga mOsOul"@ {
            Ok(FontTable::MoSoulF16)
        } else if name == "C64 PETSCII unshifted"@ {
            Ok(FontTable::PetsciiUnshifted)
        } else if name == "C64 PETSCII shifted"@ {
            Ok(FontTable::PetsciiShifted)
        } else {
            Err(FontError::FontNotFound)
        }
    }

    /// The table that a font name stands for.
    pub fn from_name(name: &str) -> (r: Result<FontTable, FontError>)
        ensures
            r == FontTable::named(name@),
    {
        if same_text(name, "IBM VGA") {
            Ok(FontTable::Cp437F16)
        } else if same_text(name, "IBM VGA50") {
            Ok(FontTable::Cp437F08)
        } else if same_text(name, "IBM VGA25G") {
            Ok(FontTable::Cp437F19)
        } else if same_text(name, "IBM EGA") {
            Ok(FontTable::Cp437F14)
        } else if same_text(name, "IBM EGA43") {
            Ok(FontTable::Cp437F08)
        } else if same_text(name, "IBM VGA 437") {
            Ok(FontTable::Cp437F16)
        } else if same_text(name, "IBM VGA50 437") {
            Ok(FontTable::Cp437F08)
        } else if same_text(name, "IBM VGA25G 437") {
            Ok(FontTable::Cp437F19)
        } else if same_text(name, "IBM EGA 437") {
            Ok(FontTable::Cp437F14)
        } else if same_text(name, "IBM EGA43 437") {
            Ok(FontTable::Cp437F08)
        } else if same_text(name, "IBM VGA 720") {
            Ok(FontTable::Cp437F16)
        } else if same_text(name, "IBM VGA50 720") {
            Ok(FontTable::Cp437F08)
        } else if same_text(name, "IBM VGA25G 720") {
            Ok(FontTable::Cp437F19)
        } else if same_text(name, "IBM EGA 720") {
            Ok(FontTable::Cp437F14)
        } else if same_text(name, "IBM EGA43 720") {
            Ok(FontTable::Cp437F08)
        } else if same_text(name, "IBM VGA 737") {
            Ok(FontTable::Cp737F16)
        } else if same_text(name, "IBM VGA50 737") {
            Ok(FontTable::Cp737F08)
        } else if same_text(name, "IBM VGA25G 737") {
            Ok(FontTable::Cp437F19)
        } else if same_text(name, "IBM EGA 737") {
            Ok(FontTable::Cp737F14)
        } else if same_text(name, "IBM EGA43 737") {
            Ok(FontTable::Cp737F08)
        } else if same_text(name, "IBM VGA 775") {
            Ok(FontTable::Cp775F16)
        } else if same_text(name, "IBM VGA50 775") {
            Ok(FontTable::Cp775F08)
        } else if same_text(name, "IBM VGA25G 775") {
            Ok(FontTable::Cp437F19)
        } else if same_text(name, "IBM EGA 775") {
            Ok(FontTable::Cp775F14)
        } else if same_text(name, "IBM EGA43 775") {
            Ok(FontTable::Cp775F08)
        } else if same_text(name, "IBM VGA 819") {
            Ok(FontTable::Cp437F16)
        } else if same_text(name, "IBM VGA50 819") {
            Ok(FontTable::Cp437F08)
        } else if same_text(name, "IBM VGA25G 819") {
            Ok(FontTable::Cp437F19)
        } else if same_text(name, "IBM EGA 819") {
            Ok(FontTable::Cp437F14)
        } else if same_text(name, "IBM EGA43 819") {
            Ok(FontTable::Cp437F08)
        } else if same_text(name, "IBM VGA 850") {
            Ok(FontTable::Cp850F16)
        } else if same_text(name, "IBM VGA50 850") {
            Ok(FontTable::Cp850F08)
        } else if same_text(name, "IBM VGA25G 850") {
            Ok(FontTable::Cp850F19)
        } else if same_text(name, "IBM EGA 850") {
            Ok(FontTable::Cp850F14)
        } else if same_text(name, "IBM EGA43 850") {
            Ok(FontTable::Cp850F08)
        } else if same_text(name, "IBM VGA 852") {
            Ok(FontTable::Cp852F16)
        } else if same_text(name, "IBM VGA50 852") {
            Ok(FontTable::Cp852F08)
        } else if same_text(name, "IBM VGA25G 852") {
            Ok(FontTable::Cp852F19)
        } else if same_text(name, "IBM EGA 852") {
            Ok(FontTable::Cp852F14)
        } else if same_text(name, "IBM EGA43 852") {
            Ok(FontTable::Cp852F08)
        } else if same_text(name, "IBM VGA 855") {
            Ok(FontTable::Cp855F16)
        } else if same_text(name, "IBM VGA50 855") {
            Ok(FontTable::Cp855F08)
        } else if same_text(name, "IBM VGA25G 855") {
            Ok(FontTable::Cp437F19)
        } else if same_text(name, "IBM EGA 855") {
            Ok(FontTable::Cp855F14)
        } else if same_text(name, "IBM EGA43 855") {
            Ok(FontTable::Cp855F08)
        } else if same_text(name, "IBM VGA 857") {
            Ok(FontTable::Cp857F16)
        } else if same_text(name, "IBM VGA50 857") {
            Ok(FontTable::Cp857F08)
        } else if same_text(name, "IBM VGA25G 857") {
            Ok(FontTable::Cp437F19)
        } else if same_text(name, "IBM EGA 857") {
            Ok(FontTable::Cp857F14)
        } else if same_text(name, "IBM EGA43 857") {
            Ok(FontTable::Cp857F08)
        } else if same_text(name, "IBM VGA 858") {
            Ok(FontTable::Cp437F16)
        } else if same_text(name, "IBM VGA50 858") {
            Ok(FontTable::Cp437F08)
        } else if same_text(name, "IBM VGA25G 858") {
            Ok(FontTable::Cp437F19)
        } else if same_text(name, "IBM EGA 858") {
            Ok(FontTable::Cp437F14)
        } else if same_text(name, "IBM EGA43 858") {
            Ok(FontTable::Cp437F08)
        } else if same_text(name, "IBM VGA 860") {
            Ok(FontTable::Cp860F16)
        } else if same_text(name, "IBM VGA50 860") {
            Ok(FontTable::Cp860F08)
        } else if same_text(name, "IBM VGA25G 860") {
            Ok(FontTable::Cp860F19)
        } else if same_text(name, "IBM EGA 860") {
            Ok(FontTable::Cp860F14)
        } else if same_text(name, "IBM EGA43 860") {
            Ok(FontTable::Cp860F08)
        } else if same_text(name, "IBM VGA 861") {
            Ok(FontTable::Cp861F16)
        } else if same_text(name, "IBM VGA50 861") {
            Ok(FontTable::Cp861F08)
        } else if same_text(name, "IBM VGA25G 861") {
            Ok(FontTable::Cp861F19)
        } else if same_text(name, "IBM EGA 861") {
            Ok(FontTable::Cp861F14)
        } else if same_text(name, "IBM EGA43 861") {
            Ok(FontTable::Cp861F08)
        } else if same_text(name, "IBM VGA 862") {
            Ok(FontTable::Cp862F16)
        } else if same_text(name, "IBM VGA50 862") {
            Ok(FontTable::Cp862F08)
        } else if same_text(name, "IBM VGA25G 862") {
            Ok(FontTable::Cp437F19)
        } else if same_text(name, "IBM EGA 862") {
            Ok(FontTable::Cp862F14)
        } else if same_text(name, "IBM EGA43 862") {
            Ok(FontTable::Cp862F08)
        } else if same_text(name, "IBM VGA 863") {
            Ok(FontTable::Cp863F16)
        } else if same_text(name, "IBM VGA50 863") {
            Ok(FontTable::Cp863F08)
        } else if same_text(name, "IBM VGA25G 863") {
            Ok(FontTable::Cp863F19)
        } else if same_text(name, "IBM EGA 863") {
            Ok(FontTable::Cp863F14)
        } else if same_text(name, "IBM EGA43 863") {
            Ok(FontTable::Cp863F08)
        } else if same_text(name, "IBM VGA 864") {
            Ok(FontTable::Cp864F16)
        } else if same_text(name, "IBM VGA50 864") {
            Ok(FontTable::Cp864F08)
        } else if same_text(name, "IBM VGA25G 864") {
            Ok(FontTable::Cp437F19)
        } else if same_text(name, "IBM EGA 864") {
            Ok(FontTable::Cp864F14)
        } else if same_text(name, "IBM EGA43 864") {
            Ok(FontTable::Cp864F08)
        } else if same_text(name, "IBM VGA 865") {
            Ok(FontTable::Cp865F16)
        } else if same_text(name, "IBM VGA50 865") {
            Ok(FontTable::Cp865F08)
        } else if same_text(name, "IBM VGA25G 865") {
            Ok(FontTable::Cp865F19)
        } else if same_text(name, "IBM EGA 865") {
            Ok(FontTable::Cp865F14)
        } else if same_text(name, "IBM EGA43 865") {
            Ok(FontTable::Cp865F08)
        } else if same_text(name, "IBM VGA 869") {
            Ok(FontTable::Cp869F16)
        } else if same_text(name, "IBM VGA50 869") {
            Ok(FontTable::Cp869F08)
        } else if same_text(name, "IBM VGA25G 869") {
            Ok(FontTable::Cp437F19)
        } else if same_text(name, "IBM EGA 869") {
            Ok(FontTable::Cp869F14)
        } else if same_text(name, "IBM EGA43 869") {
            Ok(FontTable::Cp869F08)
        } else if same_text(name, "IBM VGA 872") {
            Ok(FontTable::Cp437F16)
        } else if same_text(name, "IBM VGA50 872") {
            Ok(FontTable::Cp437F08)
        } else if same_text(name, "IBM VGA25G 872") {
            Ok(FontTable::Cp437F19)
        } else if same_text(name, "IBM EGA 872") {
            Ok(FontTable::Cp437F14)
        } else if same_text(name, "IBM EGA43 872") {
            Ok(FontTable::Cp437F08)
        } else if same_text(name, "IBM VGA KAM") {
            Ok(FontTable::Cp437F16)
        } else if same_text(name, "IBM VGA50 KAM") {
            Ok(FontTable::Cp437F08)
        } else if same_text(name, "IBM VGA25G KAM") {
            Ok(FontTable::Cp437F19)
        } else if same_text(name, "IBM EGA KAM") {
            Ok(FontTable::Cp437F14)
        } else if same_text(name, "IBM EGA43 KAM") {
            Ok(FontTable::Cp437F08)
        } else if same_text(name, "IBM VGA MAZ") {
            Ok(FontTable::Cp437F16)
        } else if same_text(name, "IBM VGA50 MAZ") {
            Ok(FontTable::Cp437F08)
        } else if same_text(name, "IBM VGA25G MAZ") {
            Ok(FontTable::Cp437F19)
        } else if same_text(name, "IBM EGA MAZ") {
            Ok(FontTable::Cp437F14)
        } else if same_text(name, "IBM EGA43 MAZ") {
            Ok(FontTable::Cp437F08)
        } else if same_text(name, "IBM VGA MIK") {
            Ok(FontTable::Cp866F16)
        } else if same_text(name, "IBM VGA50 MIK") {
            Ok(FontTable::Cp866F08)
        } else if same_text(name, "IBM VGA25G MIK") {
            Ok(FontTable::Cp437F19)
        } else if same_text(name, "IBM EGA MIK") {
            Ok(FontTable::Cp866F14)
        } else if same_text(name, "IBM EGA43 MIK") {
            Ok(FontTable::Cp866F08)
        } else if same_text(name, "IBM VGA 667") {
            Ok(FontTable::Cp437F16)
        } else if same_text(name, "IBM VGA50 667") {
            Ok(FontTable::Cp437F08)
        } else if same_text(name, "IBM VGA25G 667") {
            Ok(FontTable::Cp437F19)
        } else if same_text(name, "IBM EGA 667") {
            Ok(FontTable::Cp437F14)
        } else if same_text(name, "IBM EGA43 667") {
            Ok(FontTable::Cp437F08)
        } else if same_text(name, "IBM VGA 790") {
            Ok(FontTable::Cp437F16)
        } else if same_text(name, "IBM VGA50 790") {
            Ok(FontTable::Cp437F08)
        } else if same_text(name, "IBM VGA25G 790") {
            Ok(FontTable::Cp437F19)
        } else if same_text(name, "IBM EGA 790") {
            Ok(FontTable::Cp437F14)
        } else if same_text(name, "IBM EGA43 790") {
            Ok(FontTable::Cp437F08)
        } else if same_text(name, "IBM VGA 866") {
            Ok(FontTable::Cp866F16)
        } else if same_text(name, "IBM VGA50 866") {
            Ok(FontTable::Cp866F08)
        } else if same_text(name, "IBM VGA25G 866") {
            Ok(FontTable::Cp437F19)
        } else if same_text(name, "IBM EGA 866") {
            Ok(FontTable::Cp866F14)
        } else if same_text(name, "IBM EGA43 866") {
            Ok(FontTable::Cp866F08)
        } else if same_text(name, "IBM VGA 867") {
            Ok(FontTable::Cp437F16)
        } else if same_text(name, "IBM VGA50 867") {
            Ok(FontTable::Cp437F08)
        } else if same_text(name, "IBM VGA25G 867") {
            Ok(FontTable::Cp437F19)
        } else if same_text(name, "IBM EGA 867") {
            Ok(FontTable::Cp437F14)
        } else if same_text(name, "IBM EGA43 867") {
            Ok(FontTable::Cp437F08)
        } else if same_text(name, "IBM VGA 895") {
            Ok(FontTable::Cp437F16)
        } else if same_text(name, "IBM VGA50 895") {
            Ok(FontTable::Cp437F08)
        } else if same_text(name, "IBM VGA25G 895") {
            Ok(FontTable::Cp437F19)
        } else if same_text(name, "IBM EGA 895") {
            Ok(FontTable::Cp437F14)
        } else if same_text(name, "IBM EGA43 895") {
            Ok(FontTable::Cp437F08)
        } else if same_text(name, "IBM VGA 991") {
            Ok(FontTable::Cp437F16)
        } else if same_text(name, "IBM VGA50 991") {
            Ok(FontTable::Cp437F08)
        } else if same_text(name, "IBM VGA25G 991") {
            Ok(FontTable::Cp437F19)
        } else if same_text(name, "IBM EGA 991") {
            Ok(FontTable::Cp437F14)
        } else if same_text(name, "IBM EGA43 991") {
            Ok(FontTable::Cp437F08)
        } else if same_text(name, "Amiga Topaz 1") {
            Ok(FontTable::TopazA500F16)
        } else if same_text(name, "Amiga Topaz 1+") {
            Ok(FontTable::TopazPlusA500F16)
        } else if same_text(name, "Amiga Topaz 2") {
            Ok(FontTable::TopazA1200F16)
        } else if same_text(name, "Amiga Topaz 2+") {
            Ok(FontTable::TopazPlusA1200F16)
        } else if same_text(name, "Amiga P0T-NOoDLE") {
            Ok(FontTable::P0tNoodleF16)
        } else if same_text(name, "Amiga MicroKnight") {
            Ok(FontTable::MicroKnightF16)
        } else if same_text(name, "Amiga MicroKnight+") {
            Ok(FontTable::MicroKnightPlusF16)
        } else if same_text(name, "Amiga mOsOul") {
            Ok(FontTable::MoSoulF16)
        } else if same_text(name, "C64 PETSCII unshifted") {
            Ok(FontTable::PetsciiUnshifted)
        } else if same_text(name, "C64 PETSCII shifted") {
            Ok(FontTable::PetsciiShifted)
        } else {
            Err(FontError::FontNotFound)
        }
    }
}

impl Font {
    /// The font held in the bytes of a table: 256 glyphs, eight pixels wide
    /// and as high as the table says. Fails where the bytes are not as many
    /// as the table has.
    pub fn from_table(table: FontTable, bitmask: &[u8]) -> (r: Result<Font, FontError>)
        ensures
            r is Ok <==> bitmask@.len() == table.size(),
            r is Err ==> r == Err::<Font, _>(FontError::FileNotCorrectSize),
            r matches Ok(font) ==> {
                &&& font.width == 8
                &&& font.height == table.height()
                &&& font.length == 256
                &&& font.wf()
                &&& masks(font.bitmasks@) == glyph_masks(bits_of(bitmask@), 8 * table.height())
            },
    {
        let height: usize = table.glyph_height();
        if bitmask.len() != TABLE_LENGTH * height {
            return Err(FontError::FileNotCorrectSize);
        }
        assert((8 * bitmask@.len() as int) % (8 * height) == 0) by (nonlinear_arith)
            requires
                bitmask@.len() == 256 * height,
                height > 0,
        ;
        let font = Font::new(bitmask, TABLE_WIDTH, height, TABLE_LENGTH);
        assert(256 * (8 * height) <= 8 * bitmask@.len());
        Ok(font)
    }
}

} // verus!
