//! Gene, transcript, and exon models with refFlat interchange.
//!
//! The library models annotated genomic features on half-open `[start, end)`
//! intervals, reconstructs per-exon sub-features (UTRs, CDS segments, start
//! and stop codons) from a transcript's exon layout and coding region, and
//! converts between the in-memory model and the tabular refFlat format.

pub mod attributes;
pub mod coordmap;
pub mod errors;
pub mod exon;
pub mod feature;
pub mod frame;
pub mod gene;
pub mod infer;
pub mod interval;
pub mod laws;
pub mod numchars;
pub mod refflat;
pub mod strand;
pub mod transcript;

pub use coordmap::RawTrxCoords;
pub use errors::Error;
pub use errors::ModelError;
pub use exon::EBuilder;
pub use exon::Exon;
pub use feature::ExonFeature;
pub use gene::GBuilder;
pub use gene::Gene;
pub use feature::ExonFeatureKind;
pub use feature::Feature;
pub use feature::FeatureKind;
pub use feature::GeneFeature;
pub use feature::GeneFeatureKind;
pub use feature::TranscriptFeature;
pub use feature::TranscriptFeatureKind;
pub use interval::Interval;
pub use refflat::record_to_transcript;
pub use refflat::RefFlatGenesStream;
pub use refflat::RefFlatReader;
pub use refflat::RefFlatRecord;
pub use refflat::RefFlatRecordsStream;
pub use refflat::RefFlatRow;
pub use refflat::RefFlatTranscriptsStream;
pub use refflat::RefFlatWriter;
pub use strand::Strand;
pub use transcript::TBuilder;
pub use transcript::Transcript;
