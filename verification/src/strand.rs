//! Strand of a genomic feature, with character parsing.

use vstd::prelude::*;

use crate::errors::ModelError;

verus! {

/// The strand a feature lies on.
#[derive(Debug, Clone, Copy, PartialEq, Eq, Structural)]
pub enum Strand {
    /// Transcription proceeds with increasing genomic coordinates.
    Forward,
    /// Transcription proceeds with decreasing genomic coordinates.
    Reverse,
    /// The strand is not specified.
    Unknown,
}

/// The strand denoted by a character: `+`/`f`/`F` is Forward, `-`/`r`/`R`
/// is Reverse, `.`/`?` is Unknown, anything else is unrecognized.
pub open spec fn strand_of_char(c: char) -> Option<Strand> {
    if c == '+' || c == 'f' || c == 'F' {
        Some(Strand::Forward)
    } else if c == '-' || c == 'r' || c == 'R' {
        Some(Strand::Reverse)
    } else if c == '.' || c == '?' {
        Some(Strand::Unknown)
    } else {
        None
    }
}

/// The canonical character of a strand: `+`, `-`, or `.`.
pub open spec fn char_of_strand(s: Strand) -> char {
    match s {
        Strand::Forward => '+',
        Strand::Reverse => '-',
        Strand::Unknown => '.',
    }
}

impl Strand {
    /// Parses a strand from its character representation.
    pub fn from_char(c: char) -> (r: Result<Strand, ModelError>)
        ensures
            r matches Ok(s) ==> strand_of_char(c) == Some(s),
            r matches Err(e) ==> strand_of_char(c) is None && e == ModelError::InvalidStrandChar(
                c,
            ),
    {
        if c == '+' || c == 'f' || c == 'F' {
            Ok(Strand::Forward)
        } else if c == '-' || c == 'r' || c == 'R' {
            Ok(Strand::Reverse)
        } else if c == '.' || c == '?' {
            Ok(Strand::Unknown)
        } else {
            Err(ModelError::InvalidStrandChar(c))
        }
    }

    /// Returns the canonical character of the strand.
    pub fn symbol(&self) -> (r: char)
        ensures
            r == char_of_strand(*self),
    {
        match self {
            Strand::Forward => '+',
            Strand::Reverse => '-',
            Strand::Unknown => '.',
        }
    }
}

/// Resolves the `strand` and `strand_char` inputs given to builders: with
/// neither, the strand is unspecified; with one, that one decides; with
/// both, the parsed character must agree with the given strand.
pub open spec fn resolved_strand(
    strand: Option<Strand>,
    strand_char: Option<char>,
) -> Result<Strand, ModelError> {
    match (strand, strand_char) {
        (None, None) => Err(ModelError::UnspecifiedStrand),
        (Some(sv), None) => Ok(sv),
        (None, Some(cv)) => match strand_of_char(cv) {
            Some(sv) => Ok(sv),
            None => Err(ModelError::InvalidStrandChar(cv)),
        },
        (Some(sv), Some(cv)) => match strand_of_char(cv) {
            Some(sc) => if sc == sv {
                Ok(sv)
            } else {
                Err(ModelError::ConflictingStrand)
            },
            None => Err(ModelError::InvalidStrandChar(cv)),
        },
    }
}

/// Resolves the `strand` and `strand_char` builder inputs.
pub fn resolve_strand_input(strand: Option<Strand>, strand_char: Option<char>) -> (r: Result<
    Strand,
    ModelError,
>)
    ensures
        r == resolved_strand(strand, strand_char),
{
    match (strand, strand_char) {
        (None, None) => Err(ModelError::UnspecifiedStrand),
        (Some(sv), None) => Ok(sv),
        (None, Some(cv)) => Strand::from_char(cv),
        (Some(sv), Some(cv)) => {
            match Strand::from_char(cv) {
                Ok(sc) => {
                    if sc == sv {
                        Ok(sv)
                    } else {
                        Err(ModelError::ConflictingStrand)
                    }
                },
                Err(e) => Err(e),
            }
        },
    }
}

} // verus!
