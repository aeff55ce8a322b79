//! Feature kinds and the generic feature spanning an interval.

use vstd::prelude::*;

use crate::interval::Interval;

verus! {

/// Marker trait for feature kinds.
pub trait FeatureKind {

}

/// Possible feature kinds for exons.
#[derive(Debug, Clone, PartialEq, Eq)]
pub enum ExonFeatureKind {
    /// UTR on unknown strands.
    UTR,
    /// 5'UTR.
    UTR5,
    /// 3'UTR.
    UTR3,
    /// CDS, with the number of bases to remove from the transcript-wise 5'
    /// end so that translation is in frame.
    CDS { frame: Option<u8> },
    /// Start codon, with its frame.
    StartCodon { frame: Option<u8> },
    /// Stop codon, with its frame.
    StopCodon { frame: Option<u8> },
    /// Other features that may exist within exons.
    Any(String),
}

impl FeatureKind for ExonFeatureKind {

}

/// Possible feature kinds for transcripts.
#[derive(Debug, Clone, PartialEq, Eq)]
pub enum TranscriptFeatureKind {
    /// An intron.
    Intron,
    /// Other features that may exist within transcripts.
    Any(String),
}

impl FeatureKind for TranscriptFeatureKind {

}

/// Feature kind for genes.
#[derive(Debug, Clone, PartialEq, Eq)]
pub struct GeneFeatureKind(pub String);

impl FeatureKind for GeneFeatureKind {

}

/// Genomic feature spanning an interval.
#[derive(Debug, Clone, PartialEq, Eq)]
pub struct Feature<K: FeatureKind> {
    /// The interval the feature spans.
    pub interval: Interval,
    /// The feature's kind.
    pub kind: K,
}

/// Type alias for exon features.
pub type ExonFeature = Feature<ExonFeatureKind>;

/// Type alias for transcript features.
pub type TranscriptFeature = Feature<TranscriptFeatureKind>;

/// Type alias for gene features.
pub type GeneFeature = Feature<GeneFeatureKind>;

impl<K: FeatureKind> Feature<K> {
    /// The feature's interval, as a spec value.
    pub open spec fn spec_interval(self) -> Interval {
        self.interval
    }

    /// The feature's kind, as a spec value.
    pub open spec fn spec_kind(self) -> K {
        self.kind
    }

    /// The feature's start coordinate, as a spec value.
    pub open spec fn spec_start(self) -> u64 {
        self.interval.start
    }

    /// The feature's end coordinate, as a spec value.
    pub open spec fn spec_end(self) -> u64 {
        self.interval.end
    }

    /// The number of bases spanned, as a spec value.
    pub open spec fn spec_span(self) -> int {
        self.interval.spec_span()
    }

    /// Creates a new feature.
    pub fn new(interval: Interval, kind: K) -> (r: Self)
        ensures
            r.spec_interval() == interval,
            r.spec_kind() == kind,
    {
        Feature { interval, kind }
    }

    /// Returns a reference of the feature kind.
    pub fn kind(&self) -> (r: &K)
        ensures
            *r == self.spec_kind(),
    {
        &self.kind
    }

    /// Returns a reference of the feature interval.
    pub fn interval(&self) -> (r: &Interval)
        ensures
            *r == self.spec_interval(),
    {
        &self.interval
    }

    /// Returns the genome-wise 5'-most coordinate of the feature.
    pub fn start(&self) -> (r: u64)
        ensures
            r == self.spec_start(),
    {
        self.interval.start
    }

    /// Returns the genome-wise 3'-most coordinate of the feature.
    pub fn end(&self) -> (r: u64)
        ensures
            r == self.spec_end(),
    {
        self.interval.end
    }

    /// Returns the number of bases spanned by the feature interval.
    pub fn span(&self) -> (r: u64)
        requires
            self.spec_interval().valid(),
        ensures
            r == self.spec_span(),
    {
        self.interval.span()
    }
}

} // verus!
