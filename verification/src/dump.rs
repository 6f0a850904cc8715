//! Selector for the human-readable rendering of a produced byte stream.

use vstd::prelude::*;

use crate::str_eq;

verus! {

/// The format to show the dump in.
#[derive(Debug, Clone, Copy)]
pub enum DumpFormat {
    /// Binary numbers.
    Binary,
    /// Hexadecimal numbers.
    Hex,
}

/// An error that occurs when trying to parse a dump format that doesn't
/// exist.
#[derive(Debug, Clone)]
pub struct DumpFormatParseError(pub String);

impl DumpFormat {
    /// Parse a dump format from its command-line spelling.
    pub fn parse(s: &str) -> (r: Result<DumpFormat, DumpFormatParseError>)
        ensures
            s@ == "binary"@ ==> (r matches Ok(DumpFormat::Binary)),
            s@ == "hex"@ ==> (r matches Ok(DumpFormat::Hex)),
            (s@ != "binary"@ && s@ != "hex"@) ==> (r matches Err(e) && e.0@ == s@),
    {
        proof {
            reveal_strlit("binary");
            reveal_strlit("hex");
            assert("binary"@.len() == 6);
            assert("hex"@.len() == 3);
        }
        if str_eq(s, "binary") {
            Ok(DumpFormat::Binary)
        } else if str_eq(s, "hex") {
            Ok(DumpFormat::Hex)
        } else {
            Err(DumpFormatParseError(s.to_owned()))
        }
    }
}

impl core::str::FromStr for DumpFormat {
    type Err = DumpFormatParseError;

    fn from_str(s: &str) -> Result<Self, Self::Err> {
        DumpFormat::parse(s)
    }
}

} // verus!
