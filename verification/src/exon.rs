//! The exon model and its builder.

use vstd::prelude::*;

use multimap::MultiMap;

use crate::attributes::attrs_empty;
use crate::attributes::attrs_entries;
use crate::attributes::attrs_entries_after_insert;
use crate::attributes::attrs_insert;
use crate::attributes::attrs_new;
use crate::errors::Error;
use crate::errors::ModelError;
use crate::feature::ExonFeature;
use crate::interval::Interval;
use crate::strand::resolve_strand_input;
use crate::strand::resolved_strand;
use crate::strand::Strand;

verus! {

/// The exon model.
///
/// To create an exon, an `EBuilder` needs to be used.
#[derive(Debug, Clone)]
pub struct Exon {
    /// Name of the sequence the exon lies on.
    pub seq_name: String,
    /// The interval the exon spans.
    pub interval: Interval,
    /// The strand the exon lies on.
    pub strand: Strand,
    /// Optional exon identifier.
    pub id: Option<String>,
    /// Optional identifier of the gene the exon belongs to.
    pub gene_id: Option<String>,
    /// Optional identifier of the transcript the exon belongs to.
    pub transcript_id: Option<String>,
    /// Exon attributes.
    pub attributes: MultiMap<String, String>,
    /// Features within the exon, in ascending interval order.
    pub features: Vec<ExonFeature>,
}

/// The smallest feature start in `fs`, starting the fold from `u64::MAX`.
pub open spec fn features_min_start(fs: Seq<ExonFeature>) -> int
    decreases fs.len(),
{
    if fs.len() == 0 {
        u64::MAX as int
    } else {
        let rest = features_min_start(fs.drop_first());
        if fs[0].interval.start <= rest {
            fs[0].interval.start as int
        } else {
            rest
        }
    }
}

/// The largest feature end in `fs`, starting the fold from `u64::MIN`.
pub open spec fn features_max_end(fs: Seq<ExonFeature>) -> int
    decreases fs.len(),
{
    if fs.len() == 0 {
        0
    } else {
        let rest = features_max_end(fs.drop_first());
        if fs[0].interval.end >= rest {
            fs[0].interval.end as int
        } else {
            rest
        }
    }
}

impl Exon {
    /// Returns the sequence name.
    pub fn seq_name(&self) -> (r: &str)
        ensures
            r@ == self.seq_name@,
    {
        self.seq_name.as_str()
    }

    /// Sets the sequence name.
    pub fn set_seq_name(&mut self, name: String)
        ensures
            *final(self) == (Exon { seq_name: name, ..*old(self) }),
    {
        self.seq_name = name;
    }

    /// Returns the identifier.
    pub fn id(&self) -> (r: Option<&str>)
        ensures
            r is Some <==> self.id is Some,
            r matches Some(s) ==> self.id matches Some(t) && s@ == t@,
    {
        match &self.id {
            Some(s) => Some(s.as_str()),
            None => None,
        }
    }

    /// Sets the exon identifier.
    pub fn set_id(&mut self, id: Option<String>)
        ensures
            *final(self) == (Exon { id, ..*old(self) }),
    {
        self.id = id;
    }

    /// Returns a reference of the strand.
    pub fn strand(&self) -> (r: &Strand)
        ensures
            *r == self.strand,
    {
        &self.strand
    }

    /// Sets the strand.
    pub fn set_strand(&mut self, strand: Strand)
        ensures
            *final(self) == (Exon { strand, ..*old(self) }),
    {
        self.strand = strand;
    }

    /// Returns the identifier of the transcript of the exon.
    pub fn transcript_id(&self) -> (r: Option<&str>)
        ensures
            r is Some <==> self.transcript_id is Some,
            r matches Some(s) ==> self.transcript_id matches Some(t) && s@ == t@,
    {
        match &self.transcript_id {
            Some(s) => Some(s.as_str()),
            None => None,
        }
    }

    /// Sets the transcript identifier of the exon.
    pub fn set_transcript_id(&mut self, transcript_id: Option<String>)
        ensures
            *final(self) == (Exon { transcript_id, ..*old(self) }),
    {
        self.transcript_id = transcript_id;
    }

    /// Returns the identifier of the gene of the exon.
    pub fn gene_id(&self) -> (r: Option<&str>)
        ensures
            r is Some <==> self.gene_id is Some,
            r matches Some(s) ==> self.gene_id matches Some(t) && s@ == t@,
    {
        match &self.gene_id {
            Some(s) => Some(s.as_str()),
            None => None,
        }
    }

    /// Sets the gene identifier of the exon.
    pub fn set_gene_id(&mut self, gene_id: Option<String>)
        ensures
            *final(self) == (Exon { gene_id, ..*old(self) }),
    {
        self.gene_id = gene_id;
    }

    /// Returns a reference of the attributes.
    pub fn attributes(&self) -> (r: &MultiMap<String, String>)
        ensures
            *r == self.attributes,
    {
        &self.attributes
    }

    /// Sets the attributes and returns the old value.
    pub fn set_attributes(&mut self, attributes: MultiMap<String, String>) -> (r: MultiMap<
        String,
        String,
    >)
        ensures
            *final(self) == (Exon { attributes, ..*old(self) }),
            r == old(self).attributes,
    {
        let mut attributes = attributes;
        core::mem::swap(&mut self.attributes, &mut attributes);
        attributes
    }

    /// Returns a reference of the interval.
    pub fn interval(&self) -> (r: &Interval)
        ensures
            *r == self.interval,
    {
        &self.interval
    }

    /// Returns the genome-wise 5'-most coordinate.
    pub fn start(&self) -> (r: u64)
        ensures
            r == self.interval.start,
    {
        self.interval.start
    }

    /// Returns the genome-wise 3'-most coordinate.
    pub fn end(&self) -> (r: u64)
        ensures
            r == self.interval.end,
    {
        self.interval.end
    }

    /// Returns the number of bases spanned by the interval.
    pub fn span(&self) -> (r: u64)
        requires
            self.interval.valid(),
        ensures
            r == self.interval.spec_span(),
    {
        self.interval.span()
    }

    /// Returns the features within the exon.
    pub fn features(&self) -> (r: &Vec<ExonFeature>)
        ensures
            *r == self.features,
    {
        &self.features
    }

    /// Returns a mutable reference of the features within the exon.
    pub fn features_mut(&mut self) -> (r: &mut Vec<ExonFeature>)
        ensures
            *r == old(self).features,
            *final(self) == (Exon { features: *final(r), ..*old(self) }),
    {
        &mut self.features
    }

    /// Sets the exon features and returns the old value.
    ///
    /// If the given features are nonempty, the exon interval is updated to
    /// span from the minimum feature start to the maximum feature end; with
    /// an empty input the interval is left unchanged.
    pub fn set_features(&mut self, features: Vec<ExonFeature>) -> (r: Result<
        Vec<ExonFeature>,
        ModelError,
    >)
        ensures
            features@.len() == 0 ==> (r matches Ok(fs) && fs == old(self).features && *final(self)
                == (Exon { features, ..*old(self) })),
            features@.len() > 0 && features_min_start(features@) < features_max_end(features@)
                ==> (r matches Ok(fs) && fs == old(self).features && *final(self) == (Exon {
                features,
                interval: Interval {
                    start: features_min_start(features@) as u64,
                    end: features_max_end(features@) as u64,
                },
                ..*old(self)
            })),
            features@.len() > 0 && features_min_start(features@) >= features_max_end(features@)
                ==> (r matches Err(e) && e == ModelError::InvalidInterval && *final(self) == *old(
                self,
            )),
    {
        if features.len() == 0 {
            let mut features = features;
            core::mem::swap(&mut self.features, &mut features);
            Ok(features)
        } else {
            let mut new_start: u64 = u64::MAX;
            let mut new_end: u64 = 0;
            let n = features.len();
            let mut i: usize = n;
            while i > 0
                invariant
                    i <= n,
                    n == features@.len(),
                    new_start == features_min_start(features@.subrange(i as int, n as int)),
                    new_end == features_max_end(features@.subrange(i as int, n as int)),
                decreases i,
            {
                i = i - 1;
                proof {
                    assert(features@.subrange(i as int, n as int).drop_first()
                        =~= features@.subrange(i as int + 1, n as int));
                }
                if features[i].interval.start < new_start {
                    new_start = features[i].interval.start;
                }
                if features[i].interval.end > new_end {
                    new_end = features[i].interval.end;
                }
            }
            assert(features@.subrange(0, n as int) =~= features@);
            if new_start < new_end {
                self.interval = Interval { start: new_start, end: new_end };
                let mut features = features;
                core::mem::swap(&mut self.features, &mut features);
                Ok(features)
            } else {
                Err(ModelError::InvalidInterval)
            }
        }
    }
}

/// Builder for exons.
///
/// This builder stores possible configuration values that will be used for
/// creating an exon via its `build` function.
#[derive(Debug)]
pub struct EBuilder {
    /// Name of the sequence the exon lies on.
    pub seq_name: String,
    /// Start coordinate of the exon.
    pub start: u64,
    /// End coordinate of the exon.
    pub end: u64,
    /// Optional strand input.
    pub strand: Option<Strand>,
    /// Optional strand character input.
    pub strand_char: Option<char>,
    /// Optional exon identifier.
    pub id: Option<String>,
    /// Optional identifier of the transcript the exon belongs to.
    pub transcript_id: Option<String>,
    /// Optional identifier of the gene the exon belongs to.
    pub gene_id: Option<String>,
    /// Exon attributes.
    pub attributes: MultiMap<String, String>,
    /// Pre-made features of the exon.
    pub features: Vec<ExonFeature>,
}

impl EBuilder {
    /// The exon this builder describes: an invalid interval is rejected
    /// first, then the strand inputs are resolved, and the exon carries the
    /// builder's fields unchanged.
    pub open spec fn spec_build(self) -> Result<Exon, Error> {
        if self.start >= self.end {
            Err(Error::Model(ModelError::InvalidInterval))
        } else {
            match resolved_strand(self.strand, self.strand_char) {
                Err(se) => Err(Error::Model(se)),
                Ok(st) => Ok(
                    Exon {
                        seq_name: self.seq_name,
                        interval: Interval { start: self.start, end: self.end },
                        strand: st,
                        id: self.id,
                        transcript_id: self.transcript_id,
                        gene_id: self.gene_id,
                        attributes: self.attributes,
                        features: self.features,
                    },
                ),
            }
        }
    }

    /// Creates a new builder for an exon with the given values.
    pub fn new(seq_name: &str, start: u64, end: u64) -> (r: EBuilder)
        ensures
            r.seq_name@ == seq_name@,
            r.start == start,
            r.end == end,
            r.strand is None,
            r.strand_char is None,
            r.id is None,
            r.transcript_id is None,
            r.gene_id is None,
            attrs_entries(r.attributes) == attrs_empty(),
            r.features@.len() == 0,
    {
        EBuilder {
            seq_name: seq_name.to_owned(),
            start,
            end,
            strand: None,
            strand_char: None,
            id: None,
            transcript_id: None,
            gene_id: None,
            attributes: attrs_new(),
            features: Vec::new(),
        }
    }

    /// Sets the strand of the exon.
    pub fn strand(self, strand: Strand) -> (r: EBuilder)
        ensures
            r == (EBuilder { strand: Some(strand), ..self }),
    {
        EBuilder { strand: Some(strand), ..self }
    }

    /// Sets the strand of the exon using its char representation.
    ///
    /// `+`, `f`, or `F` becomes Forward; `-`, `r`, or `R` becomes Reverse;
    /// `.` or `?` becomes Unknown; any other character makes `build` fail.
    /// When the `strand` method is also used, both must resolve to the same
    /// strand or `build` fails.
    pub fn strand_char(self, strand_char: char) -> (r: EBuilder)
        ensures
            r == (EBuilder { strand_char: Some(strand_char), ..self }),
    {
        EBuilder { strand_char: Some(strand_char), ..self }
    }

    /// Sets the identifier of the exon.
    pub fn id(self, id: String) -> (r: EBuilder)
        ensures
            r == (EBuilder { id: Some(id), ..self }),
    {
        EBuilder { id: Some(id), ..self }
    }

    /// Sets the transcript identifier of the exon.
    pub fn transcript_id(self, transcript_id: String) -> (r: EBuilder)
        ensures
            r == (EBuilder { transcript_id: Some(transcript_id), ..self }),
    {
        EBuilder { transcript_id: Some(transcript_id), ..self }
    }

    /// Sets the gene identifier of the exon.
    pub fn gene_id(self, gene_id: String) -> (r: EBuilder)
        ensures
            r == (EBuilder { gene_id: Some(gene_id), ..self }),
    {
        EBuilder { gene_id: Some(gene_id), ..self }
    }

    /// Adds a single attribute of the exon.
    pub fn attribute(self, key: String, value: String) -> (r: EBuilder)
        ensures
            attrs_entries(r.attributes) == attrs_entries_after_insert(
                attrs_entries(self.attributes),
                key@,
                value@,
            ),
            r == (EBuilder { attributes: r.attributes, ..self }),
    {
        let mut b = self;
        attrs_insert(&mut b.attributes, key, value);
        b
    }

    /// Sets the entire attributes of the exon.
    pub fn attributes(self, attributes: MultiMap<String, String>) -> (r: EBuilder)
        ensures
            r == (EBuilder { attributes, ..self }),
    {
        EBuilder { attributes, ..self }
    }

    /// Adds a feature to the exon.
    pub fn feature(self, feature: ExonFeature) -> (r: EBuilder)
        ensures
            r.features@ == self.features@.push(feature),
            r == (EBuilder { features: r.features, ..self }),
    {
        let mut b = self;
        b.features.push(feature);
        b
    }

    /// Sets all the features of the exon.
    pub fn features(self, features: Vec<ExonFeature>) -> (r: EBuilder)
        ensures
            r == (EBuilder { features, ..self }),
    {
        EBuilder { features, ..self }
    }

    /// Validates the input data and builds the exon.
    ///
    /// Fails when the coordinates are not a valid interval, or when the
    /// strand inputs are missing, unrecognized, or conflicting; the interval
    /// is checked first.
    pub fn build(self) -> (r: Result<Exon, Error>)
        ensures
            r == self.spec_build(),
    {
        let interval = match Interval::new(self.start, self.end) {
            Ok(iv) => iv,
            Err(e) => {
                return Err(Error::Model(e));
            },
        };
        let strand = match resolve_strand_input(self.strand, self.strand_char) {
            Ok(s) => s,
            Err(e) => {
                return Err(Error::Model(e));
            },
        };
        Ok(
            Exon {
                seq_name: self.seq_name,
                interval,
                strand,
                id: self.id,
                transcript_id: self.transcript_id,
                gene_id: self.gene_id,
                attributes: self.attributes,
                features: self.features,
            },
        )
    }
}

} // verus!
