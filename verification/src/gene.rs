//! The gene model and its builder.

use vstd::prelude::*;

use linked_hash_map::LinkedHashMap;
use multimap::MultiMap;

use crate::attributes::attrs_empty;
use crate::attributes::attrs_entries;
use crate::attributes::attrs_entries_after_insert;
use crate::attributes::attrs_insert;
use crate::attributes::attrs_new;
use crate::coordmap::coordmap_entries;
use crate::coordmap::coordmap_to_vec;
use crate::coordmap::RawTrxCoords;
use crate::errors::Error;
use crate::errors::ModelError;
use crate::exon::Exon;
use crate::infer::infer_ok;
use crate::infer::spec_infer_error;
use crate::interval::Interval;
use crate::strand::resolve_strand_input;
use crate::strand::resolved_strand;
use crate::strand::Strand;
use crate::transcript::TBuilder;
use crate::transcript::Transcript;

verus! {

/// The gene model.
///
/// To create a gene, a `GBuilder` needs to be used. The gene's transcripts
/// are held as key-value pairs in insertion order, keyed by transcript
/// identifier.
#[derive(Debug, Clone)]
pub struct Gene {
    /// Name of the sequence the gene lies on.
    pub seq_name: String,
    /// The interval the gene spans.
    pub interval: Interval,
    /// The strand the gene lies on.
    pub strand: Strand,
    /// Optional gene identifier.
    pub id: Option<String>,
    /// Gene attributes.
    pub attributes: MultiMap<String, String>,
    /// The gene's transcripts, keyed by identifier, in insertion order.
    pub transcripts: Vec<(String, Transcript)>,
}

impl Gene {
    /// Returns the sequence name.
    pub fn seq_name(&self) -> (r: &str)
        ensures
            r@ == self.seq_name@,
    {
        self.seq_name.as_str()
    }

    /// Sets the sequence name.
    pub fn set_seq_name(&mut self, name: String)
        ensures
            *final(self) == (Gene { seq_name: name, ..*old(self) }),
    {
        self.seq_name = name;
    }

    /// Returns the identifier.
    pub fn id(&self) -> (r: Option<&str>)
        ensures
            r is Some <==> self.id is Some,
            r matches Some(s) ==> self.id matches Some(t) && s@ == t@,
    {
        match &self.id {
            Some(s) => Some(s.as_str()),
            None => None,
        }
    }

    /// Returns a reference of the strand.
    pub fn strand(&self) -> (r: &Strand)
        ensures
            *r == self.strand,
    {
        &self.strand
    }

    /// Sets the strand.
    pub fn set_strand(&mut self, strand: Strand)
        ensures
            *final(self) == (Gene { strand, ..*old(self) }),
    {
        self.strand = strand;
    }

    /// Returns a reference of the attributes.
    pub fn attributes(&self) -> (r: &MultiMap<String, String>)
        ensures
            *r == self.attributes,
    {
        &self.attributes
    }

    /// Sets the attributes and returns the old value.
    pub fn set_attributes(&mut self, attributes: MultiMap<String, String>) -> (r: MultiMap<
        String,
        String,
    >)
        ensures
            *final(self) == (Gene { attributes, ..*old(self) }),
            r == old(self).attributes,
    {
        let mut attributes = attributes;
        core::mem::swap(&mut self.attributes, &mut attributes);
        attributes
    }

    /// Returns a reference of the interval.
    pub fn interval(&self) -> (r: &Interval)
        ensures
            *r == self.interval,
    {
        &self.interval
    }

    /// Returns the genome-wise 5'-most coordinate.
    pub fn start(&self) -> (r: u64)
        ensures
            r == self.interval.start,
    {
        self.interval.start
    }

    /// Returns the genome-wise 3'-most coordinate.
    pub fn end(&self) -> (r: u64)
        ensures
            r == self.interval.end,
    {
        self.interval.end
    }

    /// Returns the number of bases spanned by the interval.
    pub fn span(&self) -> (r: u64)
        requires
            self.interval.valid(),
        ensures
            r == self.interval.spec_span(),
    {
        self.interval.span()
    }

    /// Sets the gene identifier, propagating it as the gene identifier of
    /// every transcript and exon.
    pub fn set_id(&mut self, id: Option<String>)
        ensures
            final(self).transcripts@.len() == old(self).transcripts@.len(),
            forall|i: int|
                0 <= i < old(self).transcripts@.len() ==> {
                    let o = #[trigger] old(self).transcripts@[i];
                    let f = final(self).transcripts@[i];
                    f.0 == o.0 && f.1 == (Transcript { gene_id: id, exons: f.1.exons, ..o.1 })
                        && f.1.exons@.len() == o.1.exons@.len() && (forall|j: int|
                        0 <= j < o.1.exons@.len() ==> #[trigger] f.1.exons@[j] == (Exon {
                            gene_id: id,
                            ..o.1.exons@[j]
                        }))
                },
            *final(self) == (Gene { id, transcripts: final(self).transcripts, ..*old(self) }),
    {
        let n = self.transcripts.len();
        let mut i: usize = 0;
        while i < n
            invariant
                i <= n,
                n == self.transcripts@.len(),
                self.transcripts@.len() == old(self).transcripts@.len(),
                forall|k: int|
                    0 <= k < i ==> {
                        let o = #[trigger] old(self).transcripts@[k];
                        let f = self.transcripts@[k];
                        f.0 == o.0 && f.1 == (Transcript { gene_id: id, exons: f.1.exons, ..o.1 })
                            && f.1.exons@.len() == o.1.exons@.len() && (forall|j: int|
                            0 <= j < o.1.exons@.len() ==> #[trigger] f.1.exons@[j] == (Exon {
                                gene_id: id,
                                ..o.1.exons@[j]
                            }))
                    },
                forall|k: int| i <= k < n ==> self.transcripts@[k] == old(self).transcripts@[k],
                *self == (Gene { transcripts: self.transcripts, ..*old(self) }),
            decreases n - i,
        {
            let idc = match &id {
                Some(s) => Some(s.clone()),
                None => None,
            };
            self.transcripts[i].1.set_gene_id(idc);
            i = i + 1;
        }
        self.id = id;
    }

    /// Returns the gene's transcripts.
    pub fn transcripts(&self) -> (r: &Vec<(String, Transcript)>)
        ensures
            *r == self.transcripts,
    {
        &self.transcripts
    }

    /// Consumes the gene and returns its transcripts.
    pub fn take_transcripts(self) -> (r: Vec<(String, Transcript)>)
        ensures
            r == self.transcripts,
    {
        self.transcripts
    }
}

/// Whether the transcript keys are pairwise distinct: the gene's
/// transcripts form a mapping keyed by identifier.
pub open spec fn transcript_keys_unique(ts: Seq<(String, Transcript)>) -> bool {
    forall|i: int, j: int|
        0 <= i < j < ts.len() ==> (#[trigger] ts[i]).0@ != (#[trigger] ts[j]).0@
}

/// The error that building the transcript of one coordinate entry raises,
/// if any: the transcript coordinate is validated against the gene
/// interval, then the transcript builder's own validations run.
pub open spec fn trx_entry_error(
    g_iv: Interval,
    strand: Strand,
    incl_stop: bool,
    tid: String,
    rc: RawTrxCoords,
) -> Option<Error> {
    if rc.0.0 < g_iv.start || rc.0.1 > g_iv.end {
        Some(Error::Model(ModelError::TranscriptNotFullyEnveloped(Some(tid))))
    } else if rc.0.0 >= rc.0.1 {
        Some(Error::Model(ModelError::InvalidInterval))
    } else {
        match spec_infer_error(
            Interval { start: rc.0.0, end: rc.0.1 },
            strand,
            Some(tid),
            rc.1@,
            rc.2,
            incl_stop,
        ) {
            Some(e) => Some(Error::Model(e)),
            None => None,
        }
    }
}

/// The first error among the coordinate entries, in insertion order.
pub open spec fn first_trx_entry_error(
    entries: Seq<(String, RawTrxCoords)>,
    g_iv: Interval,
    strand: Strand,
    incl_stop: bool,
) -> Option<Error>
    decreases entries.len(),
{
    if entries.len() == 0 {
        None
    } else {
        match trx_entry_error(g_iv, strand, incl_stop, entries[0].0, entries[0].1) {
            Some(e) => Some(e),
            None => first_trx_entry_error(entries.drop_first(), g_iv, strand, incl_stop),
        }
    }
}

/// Whether `t` is the transcript built from one coordinate entry of a gene:
/// it lies on the gene's sequence and strand, spans the entry's transcript
/// coordinate, carries the entry's key as its identifier and the gene's
/// identifier, and holds the exons inferred from the entry's coordinates.
pub open spec fn gene_trx_matches(
    t: Transcript,
    seq_name: Seq<char>,
    strand: Strand,
    gid: Option<String>,
    incl_stop: bool,
    tid: String,
    rc: RawTrxCoords,
) -> bool {
    &&& t.seq_name@ == seq_name
    &&& t.interval == Interval { start: rc.0.0, end: rc.0.1 }
    &&& t.strand == strand
    &&& t.id == Some(tid)
    &&& t.gene_id == gid
    &&& attrs_entries(t.attributes) == attrs_empty()
    &&& infer_ok(t.exons@, seq_name, strand, Some(tid), gid, None, rc.1@, rc.2, incl_stop)
}

/// Builder for genes.
///
/// This builder stores possible configuration values that will be used for
/// creating a gene via its `build` function.
#[derive(Debug)]
pub struct GBuilder {
    /// Name of the sequence the gene lies on.
    pub seq_name: String,
    /// Start coordinate of the gene.
    pub start: u64,
    /// End coordinate of the gene.
    pub end: u64,
    /// Optional strand input.
    pub strand: Option<Strand>,
    /// Optional strand character input.
    pub strand_char: Option<char>,
    /// Optional gene identifier.
    pub id: Option<String>,
    /// Gene attributes.
    pub attributes: MultiMap<String, String>,
    /// Pre-made transcripts: when set, they take precedence.
    pub transcripts: Option<Vec<(String, Transcript)>>,
    /// Raw transcript coordinates to build transcripts from, keyed by
    /// transcript identifier, in insertion order.
    pub transcript_coords: Option<LinkedHashMap<String, RawTrxCoords>>,
    /// Whether the transcripts' coding coordinates include the stop codon.
    pub transcript_coding_incl_stop: bool,
}

impl GBuilder {
    /// Creates a new builder for a gene with the given values.
    pub fn new(seq_name: &str, start: u64, end: u64) -> (r: GBuilder)
        ensures
            r.seq_name@ == seq_name@,
            r.start == start,
            r.end == end,
            r.strand is None,
            r.strand_char is None,
            r.id is None,
            attrs_entries(r.attributes) == attrs_empty(),
            r.transcripts is None,
            r.transcript_coords is None,
            r.transcript_coding_incl_stop == false,
    {
        GBuilder {
            seq_name: seq_name.to_owned(),
            start,
            end,
            strand: None,
            strand_char: None,
            id: None,
            attributes: attrs_new(),
            transcripts: None,
            transcript_coords: None,
            transcript_coding_incl_stop: false,
        }
    }

    /// Sets the strand of the gene.
    pub fn strand(self, strand: Strand) -> (r: GBuilder)
        ensures
            r == (GBuilder { strand: Some(strand), ..self }),
    {
        GBuilder { strand: Some(strand), ..self }
    }

    /// Sets the strand of the gene using its char representation.
    ///
    /// `+`, `f`, or `F` becomes Forward; `-`, `r`, or `R` becomes Reverse;
    /// `.` or `?` becomes Unknown; any other character makes `build` fail.
    /// When the `strand` method is also used, both must resolve to the same
    /// strand or `build` fails.
    pub fn strand_char(self, strand_char: char) -> (r: GBuilder)
        ensures
            r == (GBuilder { strand_char: Some(strand_char), ..self }),
    {
        GBuilder { strand_char: Some(strand_char), ..self }
    }

    /// Sets the identifier of the gene.
    pub fn id(self, id: String) -> (r: GBuilder)
        ensures
            r == (GBuilder { id: Some(id), ..self }),
    {
        GBuilder { id: Some(id), ..self }
    }

    /// Adds a single attribute of the gene.
    pub fn attribute(self, key: String, value: String) -> (r: GBuilder)
        ensures
            attrs_entries(r.attributes) == attrs_entries_after_insert(
                attrs_entries(self.attributes),
                key@,
                value@,
            ),
            r == (GBuilder { attributes: r.attributes, ..self }),
    {
        let mut b = self;
        attrs_insert(&mut b.attributes, key, value);
        b
    }

    /// Sets the entire attributes of the gene.
    pub fn attributes(self, attributes: MultiMap<String, String>) -> (r: GBuilder)
        ensures
            r == (GBuilder { attributes, ..self }),
    {
        GBuilder { attributes, ..self }
    }

    /// Sets the transcripts of the gene, keyed by identifier; the keys must
    /// be pairwise distinct.
    pub fn transcripts(self, transcripts: Vec<(String, Transcript)>) -> (r: GBuilder)
        requires
            transcript_keys_unique(transcripts@),
        ensures
            r == (GBuilder { transcripts: Some(transcripts), ..self }),
    {
        GBuilder { transcripts: Some(transcripts), ..self }
    }

    /// Sets the transcripts of the gene by their raw coordinates, keyed by
    /// transcript identifier, in insertion order.
    pub fn transcript_coords(self, coords: LinkedHashMap<String, RawTrxCoords>) -> (r: GBuilder)
        ensures
            r == (GBuilder { transcript_coords: Some(coords), ..self }),
    {
        GBuilder { transcript_coords: Some(coords), ..self }
    }

    /// Sets the inclusion of the stop codon in the transcripts' coding
    /// coordinates; this is ignored for transcripts without one.
    pub fn transcript_coding_incl_stop(self, incl_stop: bool) -> (r: GBuilder)
        ensures
            r == (GBuilder { transcript_coding_incl_stop: incl_stop, ..self }),
    {
        GBuilder { transcript_coding_incl_stop: incl_stop, ..self }
    }

    /// Validates the input data and builds a gene.
    ///
    /// The interval is validated first, then the strand inputs; pre-made
    /// transcripts are taken as they are, and raw transcript coordinates
    /// are each validated against the gene interval and handed to a
    /// transcript builder, in insertion order.
    #[verifier::loop_isolation(false)]
    pub fn build(self) -> (r: Result<Gene, Error>)
        ensures
            self.start >= self.end ==> r == Err::<Gene, Error>(
                Error::Model(ModelError::InvalidInterval),
            ),
            self.start < self.end ==> (resolved_strand(self.strand, self.strand_char) matches Err(
                se,
            ) ==> r == Err::<Gene, Error>(Error::Model(se))),
            self.start < self.end ==> (resolved_strand(self.strand, self.strand_char) matches Ok(
                st,
            ) ==> {
                let g_iv = Interval { start: self.start, end: self.end };
                match self.transcripts {
                    Some(trxs) => r matches Ok(g) && g == (Gene {
                        seq_name: self.seq_name,
                        interval: g_iv,
                        strand: st,
                        id: self.id,
                        attributes: self.attributes,
                        transcripts: trxs,
                    }),
                    None => match self.transcript_coords {
                        None => r matches Ok(g) && g == (Gene {
                            seq_name: self.seq_name,
                            interval: g_iv,
                            strand: st,
                            id: self.id,
                            attributes: self.attributes,
                            transcripts: g.transcripts,
                        }) && g.transcripts@.len() == 0,
                        Some(cm) => {
                            let entries = coordmap_entries(cm);
                            match first_trx_entry_error(
                                entries,
                                g_iv,
                                st,
                                self.transcript_coding_incl_stop,
                            ) {
                                Some(e) => r == Err::<Gene, Error>(e),
                                None => r matches Ok(g) && g == (Gene {
                                    seq_name: self.seq_name,
                                    interval: g_iv,
                                    strand: st,
                                    id: self.id,
                                    attributes: self.attributes,
                                    transcripts: g.transcripts,
                                }) && g.transcripts@.len() == entries.len() && (forall|i: int|
                                    0 <= i < entries.len() ==> (#[trigger] g.transcripts@[i]).0
                                        == entries[i].0 && gene_trx_matches(
                                        g.transcripts@[i].1,
                                        self.seq_name@,
                                        st,
                                        self.id,
                                        self.transcript_coding_incl_stop,
                                        entries[i].0,
                                        entries[i].1,
                                    )),
                            }
                        },
                    },
                }
            }),
    {
        let interval = match Interval::new(self.start, self.end) {
            Ok(iv) => iv,
            Err(e) => {
                return Err(Error::Model(e));
            },
        };
        let strand = match resolve_strand_input(self.strand, self.strand_char) {
            Ok(s) => s,
            Err(e) => {
                return Err(Error::Model(e));
            },
        };
        let transcripts: Vec<(String, Transcript)> = match self.transcripts {
            Some(trxs) => trxs,
            None => match &self.transcript_coords {
                None => Vec::new(),
                Some(cm) => {
                    let entries = coordmap_to_vec(cm);
                    let ghost all = coordmap_entries(*cm);
                    let incl = self.transcript_coding_incl_stop;
                    let mut trxs: Vec<(String, Transcript)> = Vec::new();
                    let n = entries.len();
                    let mut i: usize = 0;
                    proof {
                        assert(all.skip(0) =~= all);
                    }
                    while i < n
                        invariant
                            i <= n,
                            first_trx_entry_error(all, interval, strand, incl)
                                == first_trx_entry_error(all.skip(i as int), interval, strand, incl),
                            trxs@.len() == i,
                            forall|k: int|
                                0 <= k < i ==> (#[trigger] trxs@[k]).0 == all[k].0
                                    && gene_trx_matches(
                                    trxs@[k].1,
                                    self.seq_name@,
                                    strand,
                                    self.id,
                                    incl,
                                    all[k].0,
                                    all[k].1,
                                ),
                        decreases n - i,
                    {
                        proof {
                            assert(all.skip(i as int).drop_first() =~= all.skip(i + 1));
                            assert(all.skip(i as int).first() == all[i as int]);
                        }
                        let (tid, rc) = &entries[i];
                        let (trx_coord, exon_coords, coding_coord) = rc;
                        if trx_coord.0 < interval.start || trx_coord.1 > interval.end {
                            return Err(
                                Error::Model(
                                    ModelError::TranscriptNotFullyEnveloped(Some(tid.clone())),
                                ),
                            );
                        }
                        let mut btrx = TBuilder::new(self.seq_name.as_str(), trx_coord.0, trx_coord.1)
                            .strand(strand)
                            .id(tid.clone())
                            .coords(clone_coords(exon_coords), *coding_coord)
                            .coding_incl_stop(incl);
                        btrx = match &self.id {
                            Some(gid) => btrx.gene_id(gid.clone()),
                            None => btrx,
                        };
                        let trx = match btrx.build() {
                            Ok(t) => t,
                            Err(e) => {
                                return Err(e);
                            },
                        };
                        trxs.push((tid.clone(), trx));
                        i = i + 1;
                    }
                    proof {
                        assert(all.skip(n as int) =~= Seq::<(String, RawTrxCoords)>::empty());
                    }
                    trxs
                },
            },
        };
        Ok(
            Gene {
                seq_name: self.seq_name,
                interval,
                strand,
                id: self.id,
                attributes: self.attributes,
                transcripts,
            },
        )
    }
}

/// Copies a coordinate list.
fn clone_coords(cs: &Vec<(u64, u64)>) -> (r: Vec<(u64, u64)>)
    ensures
        r@ == cs@,
{
    let mut out: Vec<(u64, u64)> = Vec::new();
    let mut i: usize = 0;
    let n = cs.len();
    while i < n
        invariant
            i <= n,
            n == cs@.len(),
            out@ == cs@.take(i as int),
        decreases n - i,
    {
        out.push(cs[i]);
        proof {
            assert(cs@.take(i + 1) =~= cs@.take(i as int).push(cs@[i as int]));
        }
        i = i + 1;
    }
    proof {
        assert(cs@.take(n as int) =~= cs@);
    }
    out
}

} // verus!
