use vstd::prelude::*;

verus! {

/// The on-disk encoding of the ledger.
#[derive(Clone, Copy, Debug, PartialEq, Eq, Structural)]
pub enum FigSaveType {
    /// Structured text (XML).
    Xml,
    /// Compact binary.
    Bin,
}

impl Default for FigSaveType {
    fn default() -> (r: Self)
        ensures
            r == FigSaveType::Xml,
    {
        FigSaveType::Xml
    }
}

/// The user's preferences that the ledger logic reads. Every field is
/// optional and falls back to a default.
#[derive(Clone, Debug, PartialEq)]
pub struct FigConfig {
    pub add_char: Option<String>,
    pub take_char: Option<String>,
    pub save_type: Option<FigSaveType>,
}

pub open spec fn glyph_or(c: Option<String>, fallback: Seq<char>) -> Seq<char> {
    match c {
        Some(s) => s@,
        None => fallback,
    }
}

impl FigConfig {
    /// The configuration of an empty config file.
    pub fn new() -> (r: FigConfig)
        ensures
            r.add_char is None,
            r.take_char is None,
            r.save_type is None,
    {
        FigConfig { add_char: None, take_char: None, save_type: None }
    }

    /// The chosen encoding, structured text when none is set.
    pub fn save_type(&self) -> (r: FigSaveType)
        ensures
            r == match self.save_type {
                Some(t) => t,
                None => FigSaveType::Xml,
            },
    {
        match self.save_type {
            Some(t) => t,
            None => FigSaveType::Xml,
        }
    }

    /// The glyphs shown before additions and withdrawals, an up arrow and a
    /// down arrow when none are set.
    pub fn get_character(&self) -> (r: (String, String))
        ensures
            r.0@ == glyph_or(self.add_char, "⬆"@),
            r.1@ == glyph_or(self.take_char, "⬇"@),
    {
        let add = match &self.add_char {
            Some(c) => c.clone(),
            None => "⬆".to_owned(),
        };
        let take = match &self.take_char {
            Some(c) => c.clone(),
            None => "⬇".to_owned(),
        };
        (add, take)
    }
}

} // verus!
