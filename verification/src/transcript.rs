//! The transcript model and its builder.

use vstd::prelude::*;

use multimap::MultiMap;

use crate::attributes::attrs_empty;
use crate::attributes::attrs_entries;
use crate::attributes::attrs_entries_after_insert;
use crate::attributes::attrs_insert;
use crate::attributes::attrs_new;
use crate::errors::Error;
use crate::errors::ModelError;
use crate::exon::Exon;
use crate::feature::ExonFeature;
use crate::feature::ExonFeatureKind;
use crate::feature::Feature;
use crate::infer::infer_exons;
use crate::infer::infer_ok;
use crate::infer::spec_infer_error;
use crate::infer::Coord;
use crate::interval::Interval;
use crate::strand::resolve_strand_input;
use crate::strand::resolved_strand;
use crate::strand::Strand;

verus! {

/// The transcript model.
///
/// To create a transcript, a `TBuilder` needs to be used.
#[derive(Debug, Clone)]
pub struct Transcript {
    /// Name of the sequence the transcript lies on.
    pub seq_name: String,
    /// The interval the transcript spans.
    pub interval: Interval,
    /// The strand the transcript lies on.
    pub strand: Strand,
    /// Optional transcript identifier.
    pub id: Option<String>,
    /// Optional identifier of the gene the transcript belongs to.
    pub gene_id: Option<String>,
    /// Transcript attributes.
    pub attributes: MultiMap<String, String>,
    /// The transcript's exons, in ascending coordinate order.
    pub exons: Vec<Exon>,
}

/// All features of all exons, in exon order.
pub open spec fn spec_flat_features(exons: Seq<Exon>) -> Seq<ExonFeature> {
    exons.map_values(|e: Exon| e.features@).flatten()
}

/// The start of the first start-codon feature.
pub open spec fn first_start_start(fs: Seq<ExonFeature>) -> Option<u64>
    decreases fs.len(),
{
    if fs.len() == 0 {
        None
    } else if fs[0].kind matches ExonFeatureKind::StartCodon { .. } {
        Some(fs[0].interval.start)
    } else {
        first_start_start(fs.drop_first())
    }
}

/// The start of the first stop-codon feature.
pub open spec fn first_stop_start(fs: Seq<ExonFeature>) -> Option<u64>
    decreases fs.len(),
{
    if fs.len() == 0 {
        None
    } else if fs[0].kind matches ExonFeatureKind::StopCodon { .. } {
        Some(fs[0].interval.start)
    } else {
        first_stop_start(fs.drop_first())
    }
}

/// The start of the first CDS feature.
pub open spec fn first_cds_start(fs: Seq<ExonFeature>) -> Option<u64>
    decreases fs.len(),
{
    if fs.len() == 0 {
        None
    } else if fs[0].kind matches ExonFeatureKind::CDS { .. } {
        Some(fs[0].interval.start)
    } else {
        first_cds_start(fs.drop_first())
    }
}

/// The end of the last start-codon feature.
pub open spec fn last_start_end(fs: Seq<ExonFeature>) -> Option<u64>
    decreases fs.len(),
{
    if fs.len() == 0 {
        None
    } else if fs.last().kind matches ExonFeatureKind::StartCodon { .. } {
        Some(fs.last().interval.end)
    } else {
        last_start_end(fs.drop_last())
    }
}

/// The end of the last stop-codon feature.
pub open spec fn last_stop_end(fs: Seq<ExonFeature>) -> Option<u64>
    decreases fs.len(),
{
    if fs.len() == 0 {
        None
    } else if fs.last().kind matches ExonFeatureKind::StopCodon { .. } {
        Some(fs.last().interval.end)
    } else {
        last_stop_end(fs.drop_last())
    }
}

/// The end of the last CDS feature.
pub open spec fn last_cds_end(fs: Seq<ExonFeature>) -> Option<u64>
    decreases fs.len(),
{
    if fs.len() == 0 {
        None
    } else if fs.last().kind matches ExonFeatureKind::CDS { .. } {
        Some(fs.last().interval.end)
    } else {
        last_cds_end(fs.drop_last())
    }
}

/// Walks stop-codon features in ascending order, consuming `rem` codon
/// bases; the end of the feature that consumes the last base, if the
/// stop-codon spans account for `rem` exactly.
pub open spec fn stop_walk_up(fs: Seq<ExonFeature>, rem: int) -> Option<u64>
    decreases fs.len(),
{
    if fs.len() == 0 {
        None
    } else if fs[0].kind matches ExonFeatureKind::StopCodon { .. } {
        let sp = if fs[0].interval.end >= fs[0].interval.start {
            fs[0].interval.end - fs[0].interval.start
        } else {
            0
        };
        if sp == rem {
            Some(fs[0].interval.end)
        } else if sp < rem {
            stop_walk_up(fs.drop_first(), rem - sp)
        } else {
            None
        }
    } else {
        stop_walk_up(fs.drop_first(), rem)
    }
}

/// Walks stop-codon features in descending order, consuming `rem` codon
/// bases; the start of the feature that consumes the last base, if the
/// stop-codon spans account for `rem` exactly.
pub open spec fn stop_walk_down(fs: Seq<ExonFeature>, rem: int) -> Option<u64>
    decreases fs.len(),
{
    if fs.len() == 0 {
        None
    } else if fs.last().kind matches ExonFeatureKind::StopCodon { .. } {
        let sp = if fs.last().interval.end >= fs.last().interval.start {
            fs.last().interval.end - fs.last().interval.start
        } else {
            0
        };
        if sp == rem {
            Some(fs.last().interval.start)
        } else if sp < rem {
            stop_walk_down(fs.drop_last(), rem - sp)
        } else {
            None
        }
    } else {
        stop_walk_down(fs.drop_last(), rem)
    }
}

/// The genome-wise 5'-most coordinate of the coding region read off the
/// stored sub-features.
pub open spec fn spec_coding_start(exons: Seq<Exon>, strand: Strand, incl_stop: bool) -> Option<
    u64,
> {
    let fs = spec_flat_features(exons);
    match strand {
        Strand::Forward => first_start_start(fs),
        Strand::Reverse => if incl_stop {
            first_stop_start(fs)
        } else {
            stop_walk_up(fs, 3)
        },
        Strand::Unknown => if incl_stop {
            first_cds_start(fs)
        } else {
            None
        },
    }
}

/// The genome-wise 3'-most coordinate of the coding region read off the
/// stored sub-features.
pub open spec fn spec_coding_end(exons: Seq<Exon>, strand: Strand, incl_stop: bool) -> Option<
    u64,
> {
    let fs = spec_flat_features(exons);
    match strand {
        Strand::Forward => if incl_stop {
            last_stop_end(fs)
        } else {
            stop_walk_down(fs, 3)
        },
        Strand::Reverse => last_start_end(fs),
        Strand::Unknown => if incl_stop {
            last_cds_end(fs)
        } else {
            None
        },
    }
}

/// The coding coordinate read off the stored sub-features: defined exactly
/// when both endpoints are.
pub open spec fn spec_coding_coord(exons: Seq<Exon>, strand: Strand, incl_stop: bool) -> Option<
    Coord,
> {
    match (spec_coding_start(exons, strand, incl_stop), spec_coding_end(
        exons,
        strand,
        incl_stop,
    )) {
        (Some(s), Some(e)) => Some((s, e)),
        _ => None,
    }
}

/// Copies a feature kind.
fn clone_kind(k: &ExonFeatureKind) -> (r: ExonFeatureKind)
    ensures
        r == *k,
{
    match k {
        ExonFeatureKind::UTR => ExonFeatureKind::UTR,
        ExonFeatureKind::UTR5 => ExonFeatureKind::UTR5,
        ExonFeatureKind::UTR3 => ExonFeatureKind::UTR3,
        ExonFeatureKind::CDS { frame } => ExonFeatureKind::CDS { frame: *frame },
        ExonFeatureKind::StartCodon { frame } => ExonFeatureKind::StartCodon { frame: *frame },
        ExonFeatureKind::StopCodon { frame } => ExonFeatureKind::StopCodon { frame: *frame },
        ExonFeatureKind::Any(s) => ExonFeatureKind::Any(s.clone()),
    }
}

/// Copies a feature.
pub fn clone_feature(f: &ExonFeature) -> (r: ExonFeature)
    ensures
        r == *f,
{
    Feature { interval: f.interval, kind: clone_kind(&f.kind) }
}

/// Collects all features of all exons, in exon order.
fn flat_features(exons: &Vec<Exon>) -> (r: Vec<ExonFeature>)
    ensures
        r@ == spec_flat_features(exons@),
{
    let mut out: Vec<ExonFeature> = Vec::new();
    let mut i: usize = 0;
    let n = exons.len();
    proof {
        assert(exons@.take(0).map_values(|e: Exon| e.features@) =~= Seq::<Seq<ExonFeature>>::empty());
        assert(out@ =~= spec_flat_features(exons@.take(0)));
    }
    while i < n
        invariant
            i <= n,
            n == exons@.len(),
            out@ == spec_flat_features(exons@.take(i as int)),
        decreases n - i,
    {
        let fs = &exons[i].features;
        let mut j: usize = 0;
        let m = fs.len();
        while j < m
            invariant
                j <= m,
                i < n,
                n == exons@.len(),
                m == exons@[i as int].features@.len(),
                fs == exons@[i as int].features,
                out@ == spec_flat_features(exons@.take(i as int)) + exons@[
                    i as int
                ].features@.take(j as int),
            decreases m - j,
        {
            out.push(clone_feature(&fs[j]));
            proof {
                assert(exons@[i as int].features@.take(j + 1) =~= exons@[
                    i as int
                ].features@.take(j as int).push(exons@[i as int].features@[j as int]));
            }
            j = j + 1;
        }
        proof {
            broadcast use Seq::lemma_flatten_push;

            let mapped = exons@.take(i as int).map_values(|e: Exon| e.features@);
            assert(exons@.take(i + 1).map_values(|e: Exon| e.features@) =~= mapped.push(
                exons@[i as int].features@,
            ));
            assert(exons@[i as int].features@.take(m as int) =~= exons@[i as int].features@);
            assert(mapped.push(exons@[i as int].features@).flatten() == mapped.flatten() + exons@[
                i as int
            ].features@);
        }
        i = i + 1;
    }
    proof {
        assert(exons@.take(n as int) =~= exons@);
    }
    out
}

/// Whether a feature is a start codon.
fn is_start_kind(f: &ExonFeature) -> (r: bool)
    ensures
        r == (f.kind matches ExonFeatureKind::StartCodon { .. }),
{
    match &f.kind {
        ExonFeatureKind::StartCodon { .. } => true,
        _ => false,
    }
}

/// Whether a feature is a stop codon.
fn is_stop_kind(f: &ExonFeature) -> (r: bool)
    ensures
        r == (f.kind matches ExonFeatureKind::StopCodon { .. }),
{
    match &f.kind {
        ExonFeatureKind::StopCodon { .. } => true,
        _ => false,
    }
}

/// Whether a feature is a CDS.
fn is_cds_kind(f: &ExonFeature) -> (r: bool)
    ensures
        r == (f.kind matches ExonFeatureKind::CDS { .. }),
{
    match &f.kind {
        ExonFeatureKind::CDS { .. } => true,
        _ => false,
    }
}

impl Transcript {
    /// Returns the sequence name.
    pub fn seq_name(&self) -> (r: &str)
        ensures
            r@ == self.seq_name@,
    {
        self.seq_name.as_str()
    }

    /// Sets the sequence name.
    pub fn set_seq_name(&mut self, name: String)
        ensures
            *final(self) == (Transcript { seq_name: name, ..*old(self) }),
    {
        self.seq_name = name;
    }

    /// Returns the identifier.
    pub fn id(&self) -> (r: Option<&str>)
        ensures
            r is Some <==> self.id is Some,
            r matches Some(s) ==> self.id matches Some(t) && s@ == t@,
    {
        match &self.id {
            Some(s) => Some(s.as_str()),
            None => None,
        }
    }

    /// Returns a reference of the strand.
    pub fn strand(&self) -> (r: &Strand)
        ensures
            *r == self.strand,
    {
        &self.strand
    }

    /// Sets the strand.
    pub fn set_strand(&mut self, strand: Strand)
        ensures
            *final(self) == (Transcript { strand, ..*old(self) }),
    {
        self.strand = strand;
    }

    /// Returns a reference of the attributes.
    pub fn attributes(&self) -> (r: &MultiMap<String, String>)
        ensures
            *r == self.attributes,
    {
        &self.attributes
    }

    /// Sets the attributes and returns the old value.
    pub fn set_attributes(&mut self, attributes: MultiMap<String, String>) -> (r: MultiMap<
        String,
        String,
    >)
        ensures
            *final(self) == (Transcript { attributes, ..*old(self) }),
            r == old(self).attributes,
    {
        let mut attributes = attributes;
        core::mem::swap(&mut self.attributes, &mut attributes);
        attributes
    }

    /// Returns a reference of the interval.
    pub fn interval(&self) -> (r: &Interval)
        ensures
            *r == self.interval,
    {
        &self.interval
    }

    /// Returns the genome-wise 5'-most coordinate.
    pub fn start(&self) -> (r: u64)
        ensures
            r == self.interval.start,
    {
        self.interval.start
    }

    /// Returns the genome-wise 3'-most coordinate.
    pub fn end(&self) -> (r: u64)
        ensures
            r == self.interval.end,
    {
        self.interval.end
    }

    /// Returns the number of bases spanned by the interval.
    pub fn span(&self) -> (r: u64)
        requires
            self.interval.valid(),
        ensures
            r == self.interval.spec_span(),
    {
        self.interval.span()
    }

    /// Sets the transcript identifier, propagating it to all exons.
    pub fn set_id(&mut self, id: Option<String>)
        ensures
            final(self).exons@.len() == old(self).exons@.len(),
            forall|i: int|
                0 <= i < old(self).exons@.len() ==> final(self).exons@[i] == (Exon {
                    transcript_id: id,
                    ..old(self).exons@[i]
                }),
            *final(self) == (Transcript { id, exons: final(self).exons, ..*old(self) }),
    {
        let n = self.exons.len();
        let mut i: usize = 0;
        while i < n
            invariant
                i <= n,
                n == self.exons@.len(),
                self.exons@.len() == old(self).exons@.len(),
                forall|k: int|
                    0 <= k < i ==> self.exons@[k] == (Exon {
                        transcript_id: id,
                        ..old(self).exons@[k]
                    }),
                forall|k: int| i <= k < n ==> self.exons@[k] == old(self).exons@[k],
                *self == (Transcript { exons: self.exons, ..*old(self) }),
            decreases n - i,
        {
            let idc = match &id {
                Some(s) => Some(s.clone()),
                None => None,
            };
            self.exons[i].set_transcript_id(idc);
            i = i + 1;
        }
        self.id = id;
    }

    /// Returns the gene identifier of the transcript.
    pub fn gene_id(&self) -> (r: Option<&str>)
        ensures
            r is Some <==> self.gene_id is Some,
            r matches Some(s) ==> self.gene_id matches Some(t) && s@ == t@,
    {
        match &self.gene_id {
            Some(s) => Some(s.as_str()),
            None => None,
        }
    }

    /// Sets the gene identifier of the transcript, propagating it to all
    /// exons.
    pub fn set_gene_id(&mut self, gene_id: Option<String>)
        ensures
            final(self).exons@.len() == old(self).exons@.len(),
            forall|i: int|
                0 <= i < old(self).exons@.len() ==> final(self).exons@[i] == (Exon {
                    gene_id,
                    ..old(self).exons@[i]
                }),
            *final(self) == (Transcript { gene_id, exons: final(self).exons, ..*old(self) }),
    {
        let n = self.exons.len();
        let mut i: usize = 0;
        while i < n
            invariant
                i <= n,
                n == self.exons@.len(),
                self.exons@.len() == old(self).exons@.len(),
                forall|k: int|
                    0 <= k < i ==> self.exons@[k] == (Exon {
                        gene_id,
                        ..old(self).exons@[k]
                    }),
                forall|k: int| i <= k < n ==> self.exons@[k] == old(self).exons@[k],
                *self == (Transcript { exons: self.exons, ..*old(self) }),
            decreases n - i,
        {
            let idc = match &gene_id {
                Some(s) => Some(s.clone()),
                None => None,
            };
            self.exons[i].set_gene_id(idc);
            i = i + 1;
        }
        self.gene_id = gene_id;
    }

    /// Returns the transcript's exons.
    pub fn exons(&self) -> (r: &Vec<Exon>)
        ensures
            *r == self.exons,
    {
        &self.exons
    }

    /// Consumes the transcript and returns its exons.
    pub fn take_exons(self) -> (r: Vec<Exon>)
        ensures
            r == self.exons,
    {
        self.exons
    }

    /// Returns the genome-wise 5' and 3'-most coordinates of the coding
    /// region, read off the stored sub-features.
    ///
    /// The stop codon is included in the returned coordinate when
    /// `incl_stop` is set. `None` is returned when no coding region is
    /// defined, when the strand is unknown and `incl_stop` is false, and
    /// when the stop-codon features do not account for exactly three bases.
    pub fn coding_coord(&self, incl_stop: bool) -> (r: Option<Coord>)
        ensures
            r == spec_coding_coord(self.exons@, self.strand, incl_stop),
    {
        let flat = flat_features(&self.exons);
        let start = self.coding_start_coord(&flat, incl_stop);
        let end = self.coding_end_coord(&flat, incl_stop);
        match (start, end) {
            (Some(s), Some(e)) => Some((s, e)),
            _ => None,
        }
    }

    /// Returns the genome-wise 5'-most coordinate of the coding region.
    #[verifier::loop_isolation(false)]
    fn coding_start_coord(&self, flat: &Vec<ExonFeature>, incl_stop: bool) -> (r: Option<u64>)
        requires
            flat@ == spec_flat_features(self.exons@),
        ensures
            r == spec_coding_start(self.exons@, self.strand, incl_stop),
    {
        let n = flat.len();
        match self.strand {
            Strand::Forward => {
                let mut i: usize = 0;
                proof {
                    assert(flat@.skip(0) =~= flat@);
                }
                while i < n
                    invariant
                        i <= n,
                        n == flat@.len(),
                        first_start_start(flat@) == first_start_start(flat@.skip(i as int)),
                    decreases n - i,
                {
                    proof {
                        assert(flat@.skip(i as int).drop_first() =~= flat@.skip(i + 1));
                        assert(flat@.skip(i as int).first() == flat@[i as int]);
                    }
                    if is_start_kind(&flat[i]) {
                        return Some(flat[i].interval.start);
                    }
                    i = i + 1;
                }
                proof {
                    assert(flat@.skip(n as int) =~= Seq::<ExonFeature>::empty());
                }
                None
            },
            Strand::Reverse => {
                let mut i: usize = 0;
                let mut rem: u64 = 3;
                proof {
                    assert(flat@.skip(0) =~= flat@);
                }
                while i < n
                    invariant
                        i <= n,
                        n == flat@.len(),
                        rem <= 3,
                        !incl_stop ==> stop_walk_up(flat@, 3) == stop_walk_up(
                            flat@.skip(i as int),
                            rem as int,
                        ),
                        incl_stop ==> first_stop_start(flat@) == first_stop_start(
                            flat@.skip(i as int),
                        ),
                    decreases n - i,
                {
                    proof {
                        assert(flat@.skip(i as int).drop_first() =~= flat@.skip(i + 1));
                        assert(flat@.skip(i as int).first() == flat@[i as int]);
                    }
                    if is_stop_kind(&flat[i]) {
                        if incl_stop {
                            return Some(flat[i].interval.start);
                        }
                        let sp = if flat[i].interval.end >= flat[i].interval.start {
                            flat[i].interval.end - flat[i].interval.start
                        } else {
                            0
                        };
                        if sp == rem {
                            return Some(flat[i].interval.end);
                        } else if sp < rem {
                            rem = rem - sp;
                        } else {
                            return None;
                        }
                    }
                    i = i + 1;
                }
                proof {
                    assert(flat@.skip(n as int) =~= Seq::<ExonFeature>::empty());
                }
                None
            },
            Strand::Unknown => {
                if !incl_stop {
                    return None;
                }
                let mut i: usize = 0;
                proof {
                    assert(flat@.skip(0) =~= flat@);
                }
                while i < n
                    invariant
                        i <= n,
                        n == flat@.len(),
                        first_cds_start(flat@) == first_cds_start(flat@.skip(i as int)),
                    decreases n - i,
                {
                    proof {
                        assert(flat@.skip(i as int).drop_first() =~= flat@.skip(i + 1));
                        assert(flat@.skip(i as int).first() == flat@[i as int]);
                    }
                    if is_cds_kind(&flat[i]) {
                        return Some(flat[i].interval.start);
                    }
                    i = i + 1;
                }
                proof {
                    assert(flat@.skip(n as int) =~= Seq::<ExonFeature>::empty());
                }
                None
            },
        }
    }

    /// Returns the genome-wise 3'-most coordinate of the coding region.
    #[verifier::loop_isolation(false)]
    fn coding_end_coord(&self, flat: &Vec<ExonFeature>, incl_stop: bool) -> (r: Option<u64>)
        requires
            flat@ == spec_flat_features(self.exons@),
        ensures
            r == spec_coding_end(self.exons@, self.strand, incl_stop),
    {
        let n = flat.len();
        match self.strand {
            Strand::Forward => {
                let mut i: usize = n;
                let mut rem: u64 = 3;
                proof {
                    assert(flat@.take(n as int) =~= flat@);
                }
                while i > 0
                    invariant
                        i <= n,
                        n == flat@.len(),
                        rem <= 3,
                        !incl_stop ==> stop_walk_down(flat@, 3) == stop_walk_down(
                            flat@.take(i as int),
                            rem as int,
                        ),
                        incl_stop ==> last_stop_end(flat@) == last_stop_end(flat@.take(i as int)),
                    decreases i,
                {
                    i = i - 1;
                    proof {
                        assert(flat@.take(i + 1).drop_last() =~= flat@.take(i as int));
                        assert(flat@.take(i + 1).last() == flat@[i as int]);
                    }
                    if is_stop_kind(&flat[i]) {
                        if incl_stop {
                            return Some(flat[i].interval.end);
                        }
                        let sp = if flat[i].interval.end >= flat[i].interval.start {
                            flat[i].interval.end - flat[i].interval.start
                        } else {
                            0
                        };
                        if sp == rem {
                            return Some(flat[i].interval.start);
                        } else if sp < rem {
                            rem = rem - sp;
                        } else {
                            return None;
                        }
                    }
                }
                proof {
                    assert(flat@.take(0) =~= Seq::<ExonFeature>::empty());
                }
                None
            },
            Strand::Reverse => {
                let mut i: usize = n;
                proof {
                    assert(flat@.take(n as int) =~= flat@);
                }
                while i > 0
                    invariant
                        i <= n,
                        n == flat@.len(),
                        last_start_end(flat@) == last_start_end(flat@.take(i as int)),
                    decreases i,
                {
                    i = i - 1;
                    proof {
                        assert(flat@.take(i + 1).drop_last() =~= flat@.take(i as int));
                        assert(flat@.take(i + 1).last() == flat@[i as int]);
                    }
                    if is_start_kind(&flat[i]) {
                        return Some(flat[i].interval.end);
                    }
                }
                proof {
                    assert(flat@.take(0) =~= Seq::<ExonFeature>::empty());
                }
                None
            },
            Strand::Unknown => {
                if !incl_stop {
                    return None;
                }
                let mut i: usize = n;
                proof {
                    assert(flat@.take(n as int) =~= flat@);
                }
                while i > 0
                    invariant
                        i <= n,
                        n == flat@.len(),
                        last_cds_end(flat@) == last_cds_end(flat@.take(i as int)),
                    decreases i,
                {
                    i = i - 1;
                    proof {
                        assert(flat@.take(i + 1).drop_last() =~= flat@.take(i as int));
                        assert(flat@.take(i + 1).last() == flat@[i as int]);
                    }
                    if is_cds_kind(&flat[i]) {
                        return Some(flat[i].interval.end);
                    }
                }
                proof {
                    assert(flat@.take(0) =~= Seq::<ExonFeature>::empty());
                }
                None
            },
        }
    }
}

/// Builder for transcripts.
///
/// This builder stores possible configuration values that will be used for
/// creating a transcript via its `build` function.
#[derive(Debug)]
pub struct TBuilder {
    /// Name of the sequence the transcript lies on.
    pub seq_name: String,
    /// Start coordinate of the transcript.
    pub start: u64,
    /// End coordinate of the transcript.
    pub end: u64,
    /// Optional strand input.
    pub strand: Option<Strand>,
    /// Optional strand character input.
    pub strand_char: Option<char>,
    /// Optional transcript identifier.
    pub id: Option<String>,
    /// Optional identifier of the gene the transcript belongs to.
    pub gene_id: Option<String>,
    /// Transcript attributes.
    pub attributes: MultiMap<String, String>,
    /// Pre-made exons: when set, they take precedence and no inference runs.
    pub exons: Option<Vec<Exon>>,
    /// Exon coordinates to infer exons from.
    pub exon_coords: Option<Vec<Coord>>,
    /// Optional coding region coordinate.
    pub coding_coord: Option<Coord>,
    /// Whether the coding coordinate includes the stop codon.
    pub coding_incl_stop: bool,
}

impl TBuilder {
    /// Creates a new builder for a transcript with the given values.
    pub fn new(seq_name: &str, start: u64, end: u64) -> (r: TBuilder)
        ensures
            r.seq_name@ == seq_name@,
            r.start == start,
            r.end == end,
            r.strand is None,
            r.strand_char is None,
            r.id is None,
            r.gene_id is None,
            attrs_entries(r.attributes) == attrs_empty(),
            r.exons is None,
            r.exon_coords is None,
            r.coding_coord is None,
            r.coding_incl_stop == false,
    {
        TBuilder {
            seq_name: seq_name.to_owned(),
            start,
            end,
            strand: None,
            strand_char: None,
            id: None,
            gene_id: None,
            attributes: attrs_new(),
            exons: None,
            exon_coords: None,
            coding_coord: None,
            coding_incl_stop: false,
        }
    }

    /// Sets the strand of the transcript.
    pub fn strand(self, strand: Strand) -> (r: TBuilder)
        ensures
            r == (TBuilder { strand: Some(strand), ..self }),
    {
        TBuilder { strand: Some(strand), ..self }
    }

    /// Sets the strand of the transcript using its char representation.
    ///
    /// `+`, `f`, or `F` becomes Forward; `-`, `r`, or `R` becomes Reverse;
    /// `.` or `?` becomes Unknown; any other character makes `build` fail.
    /// When the `strand` method is also used, both must resolve to the same
    /// strand or `build` fails.
    pub fn strand_char(self, strand_char: char) -> (r: TBuilder)
        ensures
            r == (TBuilder { strand_char: Some(strand_char), ..self }),
    {
        TBuilder { strand_char: Some(strand_char), ..self }
    }

    /// Sets the identifier of the transcript.
    pub fn id(self, id: String) -> (r: TBuilder)
        ensures
            r == (TBuilder { id: Some(id), ..self }),
    {
        TBuilder { id: Some(id), ..self }
    }

    /// Sets the gene identifier of the transcript.
    pub fn gene_id(self, gene_id: String) -> (r: TBuilder)
        ensures
            r == (TBuilder { gene_id: Some(gene_id), ..self }),
    {
        TBuilder { gene_id: Some(gene_id), ..self }
    }

    /// Adds a single attribute of the transcript.
    pub fn attribute(self, key: String, value: String) -> (r: TBuilder)
        ensures
            attrs_entries(r.attributes) == attrs_entries_after_insert(
                attrs_entries(self.attributes),
                key@,
                value@,
            ),
            r == (TBuilder { attributes: r.attributes, ..self }),
    {
        let mut b = self;
        attrs_insert(&mut b.attributes, key, value);
        b
    }

    /// Sets the entire attributes of the transcript.
    pub fn attributes(self, attributes: MultiMap<String, String>) -> (r: TBuilder)
        ensures
            r == (TBuilder { attributes, ..self }),
    {
        TBuilder { attributes, ..self }
    }

    /// Sets the exons of the transcript; an empty vector leaves them unset.
    pub fn exons(self, exons: Vec<Exon>) -> (r: TBuilder)
        ensures
            exons@.len() == 0 ==> r == (TBuilder { exons: None, ..self }),
            exons@.len() > 0 ==> r == (TBuilder { exons: Some(exons), ..self }),
    {
        if exons.len() == 0 {
            TBuilder { exons: None, ..self }
        } else {
            TBuilder { exons: Some(exons), ..self }
        }
    }

    /// Sets the exons of the transcript by their coordinates, with an
    /// optional coding region; when the coding region is set, the exons are
    /// filled with the appropriate sub-features by `build`.
    pub fn coords(self, exon_coords: Vec<Coord>, coding_coord: Option<Coord>) -> (r: TBuilder)
        ensures
            r == (TBuilder { exon_coords: Some(exon_coords), coding_coord, ..self }),
    {
        TBuilder { exon_coords: Some(exon_coords), coding_coord, ..self }
    }

    /// Sets the inclusion of the stop codon in the coding coordinate; this
    /// is ignored when no coding coordinate is set.
    pub fn coding_incl_stop(self, incl_stop: bool) -> (r: TBuilder)
        ensures
            r == (TBuilder { coding_incl_stop: incl_stop, ..self }),
    {
        TBuilder { coding_incl_stop: incl_stop, ..self }
    }

    /// Validates the input data and builds a transcript.
    ///
    /// The interval is validated first, then the strand inputs; with
    /// pre-made exons they are taken as they are, with exon coordinates the
    /// exons and their sub-features are inferred, and a coding coordinate
    /// without exon coordinates is rejected.
    pub fn build(self) -> (r: Result<Transcript, Error>)
        ensures
            self.start >= self.end ==> r == Err::<Transcript, Error>(
                Error::Model(ModelError::InvalidInterval),
            ),
            self.start < self.end ==> (resolved_strand(self.strand, self.strand_char) matches Err(
                se,
            ) ==> r == Err::<Transcript, Error>(Error::Model(se))),
            self.start < self.end ==> (resolved_strand(self.strand, self.strand_char) matches Ok(
                st,
            ) ==> {
                let t_iv = Interval { start: self.start, end: self.end };
                match self.exons {
                    Some(exns) => r matches Ok(t) && t == (Transcript {
                        seq_name: self.seq_name,
                        interval: t_iv,
                        strand: st,
                        id: self.id,
                        gene_id: self.gene_id,
                        attributes: self.attributes,
                        exons: exns,
                    }),
                    None => match self.exon_coords {
                        None => match self.coding_coord {
                            None => r matches Ok(t) && t == (Transcript {
                                seq_name: self.seq_name,
                                interval: t_iv,
                                strand: st,
                                id: self.id,
                                gene_id: self.gene_id,
                                attributes: self.attributes,
                                exons: t.exons,
                            }) && t.exons@.len() == 0,
                            Some(_) => r == Err::<Transcript, Error>(
                                Error::Model(ModelError::UnspecifiedExons(self.id)),
                            ),
                        },
                        Some(cs) => {
                            match spec_infer_error(
                                t_iv,
                                st,
                                self.id,
                                cs@,
                                self.coding_coord,
                                self.coding_incl_stop,
                            ) {
                                Some(e) => r == Err::<Transcript, Error>(Error::Model(e)),
                                None => r matches Ok(t) && t == (Transcript {
                                    seq_name: self.seq_name,
                                    interval: t_iv,
                                    strand: st,
                                    id: self.id,
                                    gene_id: self.gene_id,
                                    attributes: self.attributes,
                                    exons: t.exons,
                                }) && infer_ok(
                                    t.exons@,
                                    self.seq_name@,
                                    st,
                                    self.id,
                                    self.gene_id,
                                    None,
                                    cs@,
                                    self.coding_coord,
                                    self.coding_incl_stop,
                                ),
                            }
                        },
                    },
                }
            }),
    {
        let interval = match Interval::new(self.start, self.end) {
            Ok(iv) => iv,
            Err(e) => {
                return Err(Error::Model(e));
            },
        };
        let strand = match resolve_strand_input(self.strand, self.strand_char) {
            Ok(s) => s,
            Err(e) => {
                return Err(Error::Model(e));
            },
        };
        let exons: Vec<Exon> = match self.exons {
            Some(exns) => exns,
            None => match &self.exon_coords {
                None => match self.coding_coord {
                    None => Vec::new(),
                    Some(_) => {
                        return Err(Error::Model(ModelError::UnspecifiedExons(self.id)));
                    },
                },
                Some(cs) => {
                    let eid: Option<String> = None;
                    match infer_exons(
                        self.seq_name.as_str(),
                        interval,
                        strand,
                        &self.id,
                        &self.gene_id,
                        &eid,
                        cs,
                        self.coding_coord,
                        self.coding_incl_stop,
                    ) {
                        Ok(exns) => exns,
                        Err(e) => {
                            return Err(Error::Model(e));
                        },
                    }
                },
            },
        };
        Ok(
            Transcript {
                seq_name: self.seq_name,
                interval,
                strand,
                id: self.id,
                gene_id: self.gene_id,
                attributes: self.attributes,
                exons,
            },
        )
    }
}

} // verus!
