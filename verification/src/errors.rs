//! Error types surfaced by builders and the refFlat codec.

use vstd::prelude::*;

verus! {

/// Errors that occur when building genes, transcripts, or exons.
#[derive(Debug, Clone, PartialEq, Eq)]
pub enum ModelError {
    /// An interval with a start coordinate at or above its end coordinate.
    InvalidInterval,
    /// An unrecognized strand character.
    InvalidStrandChar(char),
    /// The `strand` and `strand_char` builder inputs resolve to different strands.
    ConflictingStrand,
    /// A builder was finalized without any strand input.
    UnspecifiedStrand,
    /// An exon coordinate with a start at or above its end.
    InvalidExonInterval(Option<String>),
    /// A coding region with a start at or above its end, after normalization.
    InvalidCodingInterval(Option<String>),
    /// A coding coordinate was supplied without exon coordinates.
    UnspecifiedExons(Option<String>),
    /// The first and/or last exon coordinates do not match the transcript bounds.
    UnmatchedExons(Option<String>),
    /// The coding region leaves no room for a stop codon in the transcript.
    CodingTooLarge(Option<String>),
    /// The coding region is too small to hold a start codon.
    CodingTooSmall(Option<String>),
    /// The coding region extends past the outermost exon bounds.
    CodingNotFullyEnveloped(Option<String>),
    /// A coding endpoint lies outside every exon.
    CodingInIntron(Option<String>),
    /// A transcript coordinate extends past its gene's coordinate.
    TranscriptNotFullyEnveloped(Option<String>),
}

/// Top-level error type: model building errors and refFlat format errors.
#[derive(Debug, Clone, PartialEq, Eq)]
pub enum Error {
    /// An error raised while validating or building a model entity.
    Model(ModelError),
    /// A malformed refFlat row.
    RefFlat(&'static str),
}

} // verus!
