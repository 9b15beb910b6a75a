use vstd::prelude::*;

verus! {

/// Why a piece of notation was refused.
#[derive(Debug, Clone, Copy, PartialEq, Eq, Structural)]
pub enum ParseError {
    UnknownCard,
    InvalidGameType,
    InvalidLength,
    MissingGroups,
    InvalidCardsGroup,
    InvalidGameGroup,
    InvalidCallsGroup,
    InvalidCall,
    InvalidFlag,
}

/// The diagnostic text of an error.
pub open spec fn message_text(e: ParseError) -> Seq<char> {
    match e {
        ParseError::UnknownCard => "Unknown card"@,
        ParseError::InvalidGameType => "Invalid game type"@,
        ParseError::InvalidLength => "Invalid vector length"@,
        ParseError::MissingGroups => "Missing TAF groups"@,
        ParseError::InvalidCardsGroup => "Invalid TAF cards group"@,
        ParseError::InvalidGameGroup => "Invalid TAF game group"@,
        ParseError::InvalidCallsGroup => "Invalid TAF calls group"@,
        ParseError::InvalidCall => "Invalid call"@,
        ParseError::InvalidFlag => "Invalid kleinen_stechen_großen"@,
    }
}

impl ParseError {
    /// The diagnostic text of this error.
    pub fn message(&self) -> (r: &'static str)
        ensures
            r@ == message_text(*self),
    {
        match self {
            ParseError::UnknownCard => "Unknown card",
            ParseError::InvalidGameType => "Invalid game type",
            ParseError::InvalidLength => "Invalid vector length",
            ParseError::MissingGroups => "Missing TAF groups",
            ParseError::InvalidCardsGroup => "Invalid TAF cards group",
            ParseError::InvalidGameGroup => "Invalid TAF game group",
            ParseError::InvalidCallsGroup => "Invalid TAF calls group",
            ParseError::InvalidCall => "Invalid call",
            ParseError::InvalidFlag => "Invalid kleinen_stechen_großen",
        }
    }
}

} // verus!
