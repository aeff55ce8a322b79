//! Exon-feature inference: from a transcript's strand, exon coordinates, and
//! optional coding region to the complete per-exon sub-features.
//!
//! The coding region's boundary codons are modeled as *pieces*: a start or
//! stop codon occupies up to three exonic bases walking away from a coding
//! boundary, split across exons where necessary. Sub-feature synthesis places
//! each exon's UTR, CDS, and codon pieces directly from those definitions,
//! and the frame walk folds over the pieces in transcription order.

use vstd::math::max;
use vstd::math::min;
use vstd::prelude::*;
use vstd::relations::total_ordering;
use vstd::relations::sorted_by;

use crate::attributes::attrs_empty;
use crate::attributes::attrs_entries;
use crate::attributes::attrs_new;
use crate::errors::ModelError;
use crate::exon::Exon;
use crate::feature::ExonFeature;
use crate::feature::ExonFeatureKind;
use crate::feature::Feature;
use crate::frame::frames_fold;
use crate::frame::spec_next_frame;
use crate::interval::Interval;
use crate::strand::Strand;

verus! {

/// A raw coordinate pair.
pub type Coord = (u64, u64);

/// Lexicographic order on coordinate pairs.
pub open spec fn coord_leq(a: Coord, b: Coord) -> bool {
    a.0 < b.0 || (a.0 == b.0 && a.1 <= b.1)
}

/// The coordinate pairs of `cs` in ascending lexicographic order.
pub open spec fn spec_sort_coords(cs: Seq<Coord>) -> Seq<Coord> {
    cs.sort_by(|a: Coord, b: Coord| coord_leq(a, b))
}

/// Lexicographic order on coordinate pairs is a total ordering.
pub proof fn lemma_coord_leq_total_ordering()
    ensures
        total_ordering(|a: Coord, b: Coord| coord_leq(a, b)),
{
}

/// Every coordinate pair is a valid interval.
pub open spec fn coords_valid(cs: Seq<Coord>) -> bool {
    forall|i: int| 0 <= i < cs.len() ==> (#[trigger] cs[i]).0 < cs[i].1
}

/// The coordinate pairs are sorted and pairwise disjoint.
pub open spec fn coords_disjoint(cs: Seq<Coord>) -> bool {
    forall|i: int, j: int| 0 <= i < j < cs.len() ==> (#[trigger] cs[i]).1 <= (#[trigger] cs[j]).0
}

/// The number of exonic bases of `cs` that lie within `[lo, hi)`.
pub open spec fn exonic_count(cs: Seq<Coord>, lo: int, hi: int) -> int
    decreases cs.len(),
{
    if cs.len() == 0 {
        0
    } else {
        let s = max(cs[0].0 as int, lo);
        let e = min(cs[0].1 as int, hi);
        (if s < e {
            e - s
        } else {
            0
        }) + exonic_count(cs.drop_first(), lo, hi)
    }
}

/// The coding end after walking exons genome-downward from `end` and
/// stripping up to `rem` exonic bases, moving the endpoint only within
/// exons that contain it (endpoints inclusive).
pub open spec fn spec_adjust_fwd(cs: Seq<Coord>, end: u64, rem: int) -> u64
    decreases cs.len(),
{
    if rem <= 0 || cs.len() == 0 {
        end
    } else {
        let s = cs.last().0;
        let e = cs.last().1;
        if s <= end && end <= e {
            let adv = min(rem, end - s);
            spec_adjust_fwd(cs.drop_last(), (end - adv) as u64, rem - adv)
        } else {
            spec_adjust_fwd(cs.drop_last(), end, rem)
        }
    }
}

/// The coding start after walking exons genome-upward from `start` and
/// stripping up to `rem` exonic bases, moving the endpoint only within
/// exons that contain it (endpoints inclusive).
pub open spec fn spec_adjust_rev(cs: Seq<Coord>, start: u64, rem: int) -> u64
    decreases cs.len(),
{
    if rem <= 0 || cs.len() == 0 {
        start
    } else {
        let s = cs.first().0;
        let e = cs.first().1;
        if s <= start && start <= e {
            let adv = min(rem, e - start);
            spec_adjust_rev(cs.drop_first(), (start + adv) as u64, rem - adv)
        } else {
            spec_adjust_rev(cs.drop_first(), start, rem)
        }
    }
}

/// The coding coordinate with the stop codon's three exonic bases stripped
/// from its transcription-wise 3' end: the genomic end on the forward
/// strand, the genomic start on the reverse strand. An unknown strand
/// leaves the coordinate unchanged.
pub open spec fn spec_adjusted_coding(
    sorted: Seq<Coord>,
    coding: Coord,
    strand: Strand,
    incl_stop: bool,
) -> Coord {
    if !incl_stop {
        coding
    } else {
        match strand {
            Strand::Forward => (coding.0, spec_adjust_fwd(sorted, coding.1, 3)),
            Strand::Reverse => (spec_adjust_rev(sorted, coding.0, 3), coding.1),
            Strand::Unknown => coding,
        }
    }
}

/// The first `n` exonic bases at positions at or above `p`, clamped below
/// `hi`, as ascending genomic intervals: a codon walking genome-upward.
pub open spec fn pieces_up(cs: Seq<Coord>, p: u64, n: int, hi: u64) -> Seq<Coord>
    decreases cs.len(),
{
    if n <= 0 || cs.len() == 0 {
        Seq::empty()
    } else {
        let lo = max(cs[0].0 as int, p as int);
        let top = min(cs[0].1 as int, hi as int);
        if lo >= top {
            pieces_up(cs.drop_first(), p, n, hi)
        } else {
            let b = min(top, lo + n);
            seq![(lo as u64, b as u64)] + pieces_up(cs.drop_first(), p, n - (b - lo), hi)
        }
    }
}

/// The last `n` exonic bases at positions strictly below `p`, as ascending
/// genomic intervals: a codon walking genome-downward.
pub open spec fn pieces_down(cs: Seq<Coord>, p: u64, n: int) -> Seq<Coord>
    decreases cs.len(),
{
    if n <= 0 || cs.len() == 0 {
        Seq::empty()
    } else {
        let hi = min(cs.last().1 as int, p as int);
        let s = cs.last().0;
        if hi <= s {
            pieces_down(cs.drop_last(), p, n)
        } else {
            let lo = max(s as int, hi - n);
            pieces_down(cs.drop_last(), p, n - (hi - lo)) + seq![(lo as u64, hi as u64)]
        }
    }
}

/// The spans of a sequence of pieces.
pub open spec fn piece_spans(ps: Seq<Coord>) -> Seq<int> {
    ps.map_values(|p: Coord| p.1 - p.0)
}

/// The index of the first piece whose start lies within `[s, e)`.
pub open spec fn find_piece_idx(ps: Seq<Coord>, s: u64, e: u64) -> Option<int>
    decreases ps.len(),
{
    if ps.len() == 0 {
        None
    } else if s <= ps[0].0 && ps[0].0 < e {
        Some(0int)
    } else {
        match find_piece_idx(ps.drop_first(), s, e) {
            Some(k) => Some(k + 1),
            None => None,
        }
    }
}

/// The frame carried by the piece at index `k`, where the pieces are walked
/// in ascending order (forward-strand transcription order).
pub open spec fn piece_frame_fwd(ps: Seq<Coord>, k: int) -> int {
    frames_fold(piece_spans(ps).take(k))
}

/// The frame carried by the piece at index `k`, where the pieces are walked
/// in descending order (reverse-strand transcription order).
pub open spec fn piece_frame_rev(ps: Seq<Coord>, k: int) -> int {
    frames_fold(piece_spans(ps).skip(k + 1).reverse())
}

/// The CDS span contributed by the exon `iv` for coding region `cr`.
pub open spec fn cds_span(iv: Coord, cr: Coord) -> int {
    min(iv.1 as int, cr.1 as int) - max(iv.0 as int, cr.0 as int)
}

/// The running CDS frame entering exon `i`, walking exons in ascending
/// order (forward strand).
pub open spec fn cds_frame_fwd(ivs: Seq<Coord>, cr: Coord, i: int) -> int
    decreases i,
{
    if i <= 0 {
        0
    } else {
        let prev = cds_frame_fwd(ivs, cr, i - 1);
        let sp = cds_span(ivs[i - 1], cr);
        if sp > 0 {
            spec_next_frame(sp, prev)
        } else {
            prev
        }
    }
}

/// The running CDS frame entering exon `i`, walking exons in descending
/// order (reverse strand).
pub open spec fn cds_frame_rev(ivs: Seq<Coord>, cr: Coord, i: int) -> int
    decreases ivs.len() - i,
{
    if i + 1 >= ivs.len() {
        0
    } else {
        let prev = cds_frame_rev(ivs, cr, i + 1);
        let sp = cds_span(ivs[i + 1], cr);
        if sp > 0 {
            spec_next_frame(sp, prev)
        } else {
            prev
        }
    }
}

/// An exon feature over `[s, e)`, in spec form.
pub open spec fn spec_feat(s: int, e: int, kind: ExonFeatureKind) -> ExonFeature {
    Feature { interval: Interval { start: s as u64, end: e as u64 }, kind }
}

/// The features of exon `i` on the forward strand, for adjusted coding
/// region `cr`: a 5'UTR below the coding start, the start-codon piece, the
/// CDS clip, the stop-codon piece, and a 3'UTR after the stop codon.
pub open spec fn spec_features_fwd(ivs: Seq<Coord>, cr: Coord, i: int) -> Seq<ExonFeature> {
    let s = ivs[i].0;
    let e = ivs[i].1;
    let sc = pieces_up(ivs, cr.0, 3, cr.1);
    let tc = pieces_up(ivs, cr.1, 3, u64::MAX);
    let utr5 = if s < cr.0 {
        seq![spec_feat(s as int, min(e as int, cr.0 as int), ExonFeatureKind::UTR5)]
    } else {
        Seq::empty()
    };
    let scf = match find_piece_idx(sc, s, e) {
        Some(k) => {
            let a = max(sc[k].0 as int, s as int);
            let b = min(sc[k].1 as int, e as int);
            if a < b {
                seq![
                    spec_feat(
                        a,
                        b,
                        ExonFeatureKind::StartCodon { frame: Some(piece_frame_fwd(sc, k) as u8) },
                    ),
                ]
            } else {
                Seq::empty()
            }
        },
        None => Seq::empty(),
    };
    let cds = if cds_span(ivs[i], cr) > 0 {
        seq![
            spec_feat(
                max(s as int, cr.0 as int),
                min(e as int, cr.1 as int),
                ExonFeatureKind::CDS { frame: Some(cds_frame_fwd(ivs, cr, i) as u8) },
            ),
        ]
    } else {
        Seq::empty()
    };
    let tcf = match find_piece_idx(tc, s, e) {
        Some(k) => {
            let a = max(tc[k].0 as int, s as int);
            let b = min(tc[k].1 as int, e as int);
            if a < b {
                seq![
                    spec_feat(
                        a,
                        b,
                        ExonFeatureKind::StopCodon { frame: Some(piece_frame_fwd(tc, k) as u8) },
                    ),
                ]
            } else {
                Seq::empty()
            }
        },
        None => Seq::empty(),
    };
    let u3 = match find_piece_idx(tc, s, e) {
        Some(k) => min(tc[k].1 as int, e as int),
        None => max(s as int, cr.1 as int),
    };
    let utr3 = if u3 < e {
        seq![spec_feat(u3, e as int, ExonFeatureKind::UTR3)]
    } else {
        Seq::empty()
    };
    utr5 + scf + cds + tcf + utr3
}

/// The features of exon `i` on the reverse strand, for adjusted coding
/// region `cr`: a 3'UTR below the stop codon, the stop-codon piece (ending
/// at the coding start), the CDS clip, the start-codon piece (ending at the
/// coding end), and a 5'UTR above the coding end.
pub open spec fn spec_features_rev(ivs: Seq<Coord>, cr: Coord, i: int) -> Seq<ExonFeature> {
    let s = ivs[i].0;
    let e = ivs[i].1;
    let tc = pieces_down(ivs, cr.0, 3);
    let sc = pieces_down(ivs, cr.1, 3);
    let utr3 = if s < cr.0 {
        let end3 = match find_piece_idx(tc, s, e) {
            Some(k) => max(tc[k].0 as int, s as int),
            None => min(e as int, cr.0 - 3),
        };
        if (s as int) < end3 {
            seq![spec_feat(s as int, end3, ExonFeatureKind::UTR3)]
        } else {
            Seq::empty()
        }
    } else {
        Seq::empty()
    };
    let tcf = match find_piece_idx(tc, s, e) {
        Some(k) => {
            let a = max(tc[k].0 as int, s as int);
            let b = min(tc[k].1 as int, e as int);
            if a < b {
                seq![
                    spec_feat(
                        a,
                        b,
                        ExonFeatureKind::StopCodon { frame: Some(piece_frame_rev(tc, k) as u8) },
                    ),
                ]
            } else {
                Seq::empty()
            }
        },
        None => Seq::empty(),
    };
    let cds = if cds_span(ivs[i], cr) > 0 {
        seq![
            spec_feat(
                max(s as int, cr.0 as int),
                min(e as int, cr.1 as int),
                ExonFeatureKind::CDS { frame: Some(cds_frame_rev(ivs, cr, i) as u8) },
            ),
        ]
    } else {
        Seq::empty()
    };
    let scf = match find_piece_idx(sc, s, e) {
        Some(k) => {
            let a = max(sc[k].0 as int, s as int);
            let b = min(sc[k].1 as int, e as int);
            if a < b {
                seq![
                    spec_feat(
                        a,
                        b,
                        ExonFeatureKind::StartCodon { frame: Some(piece_frame_rev(sc, k) as u8) },
                    ),
                ]
            } else {
                Seq::empty()
            }
        },
        None => Seq::empty(),
    };
    let utr5 = if e > cr.1 {
        let u = max(s as int, cr.1 as int);
        if u < e {
            seq![spec_feat(u, e as int, ExonFeatureKind::UTR5)]
        } else {
            Seq::empty()
        }
    } else {
        Seq::empty()
    };
    utr3 + tcf + cds + scf + utr5
}

/// The features of exon `i` on an unknown strand, for coding region `cr`:
/// plain UTRs around the CDS clip, no codons and no frames.
pub open spec fn spec_features_unk(ivs: Seq<Coord>, cr: Coord, i: int) -> Seq<ExonFeature> {
    let s = ivs[i].0;
    let e = ivs[i].1;
    let utr_l = if s < cr.0 {
        seq![spec_feat(s as int, min(e as int, cr.0 as int), ExonFeatureKind::UTR)]
    } else {
        Seq::empty()
    };
    let cds = if cds_span(ivs[i], cr) > 0 {
        seq![
            spec_feat(
                max(s as int, cr.0 as int),
                min(e as int, cr.1 as int),
                ExonFeatureKind::CDS { frame: None },
            ),
        ]
    } else {
        Seq::empty()
    };
    let utr_r = if e > cr.1 {
        seq![spec_feat(max(s as int, cr.1 as int), e as int, ExonFeatureKind::UTR)]
    } else {
        Seq::empty()
    };
    utr_l + cds + utr_r
}

/// The features of exon `i` given the optional adjusted coding region:
/// none at all without a coding region.
pub open spec fn spec_exon_features(
    ivs: Seq<Coord>,
    coding: Option<Coord>,
    strand: Strand,
    i: int,
) -> Seq<ExonFeature> {
    match coding {
        None => Seq::empty(),
        Some(cr) => match strand {
            Strand::Forward => spec_features_fwd(ivs, cr, i),
            Strand::Reverse => spec_features_rev(ivs, cr, i),
            Strand::Unknown => spec_features_unk(ivs, cr, i),
        },
    }
}

/// Whether some exon's closed interval contains position `p`.
pub open spec fn endpoint_in_some_exon(cs: Seq<Coord>, p: u64) -> bool {
    exists|i: int|
        0 <= i < cs.len() && (#[trigger] cs[i]).0 <= p && p <= cs[i].1
}

/// Whether the exons leave three bases of room for a stop codon beyond the
/// adjusted coding region, on the side(s) the strand requires.
pub open spec fn spec_stop_room(sorted: Seq<Coord>, cr: Coord, strand: Strand) -> bool {
    match strand {
        Strand::Forward => cr.1 + 3 <= sorted.last().1,
        Strand::Reverse => cr.0 - 3 >= sorted.first().0,
        Strand::Unknown => cr.0 - 3 >= sorted.first().0 && cr.1 + 3 <= sorted.last().1,
    }
}

/// Whether some exon would host a start codon at a coding boundary: one
/// that spans the whole coding region.
pub open spec fn some_exon_spans_coding(sorted: Seq<Coord>, cr: Coord) -> bool {
    exists|i: int|
        0 <= i < sorted.len() && (#[trigger] sorted[i]).0 <= cr.0 && sorted[i].1 >= cr.1
}

/// The error that exon-feature inference raises for these inputs, if any:
/// missing or invalid exon coordinates first, then exon bounds against the
/// transcript interval, then the checks on the adjusted coding region.
pub open spec fn spec_infer_error(
    t_iv: Interval,
    strand: Strand,
    tid: Option<String>,
    cs: Seq<Coord>,
    coding: Option<Coord>,
    incl_stop: bool,
) -> Option<ModelError> {
    if cs.len() == 0 {
        Some(ModelError::UnspecifiedExons(tid))
    } else if !coords_valid(cs) {
        Some(ModelError::InvalidExonInterval(tid))
    } else {
        let sorted = spec_sort_coords(cs);
        if sorted.first().0 != t_iv.start || sorted.last().1 != t_iv.end {
            Some(ModelError::UnmatchedExons(tid))
        } else {
            match coding {
                None => None,
                Some(c) => {
                    let cr = spec_adjusted_coding(sorted, c, strand, incl_stop);
                    if cr.0 >= cr.1 {
                        Some(ModelError::InvalidCodingInterval(tid))
                    } else if cr.0 < sorted.first().0 || cr.1 > sorted.last().1 {
                        Some(ModelError::CodingNotFullyEnveloped(tid))
                    } else if !endpoint_in_some_exon(sorted, cr.0) || !endpoint_in_some_exon(
                        sorted,
                        cr.1,
                    ) {
                        Some(ModelError::CodingInIntron(tid))
                    } else if !spec_stop_room(sorted, cr, strand) {
                        Some(ModelError::CodingTooLarge(tid))
                    } else if cr.1 - cr.0 < 3 && some_exon_spans_coding(sorted, cr) {
                        Some(ModelError::CodingTooSmall(tid))
                    } else {
                        None
                    }
                },
            }
        }
    }
}

/// Inserting an element anywhere in a sequence inserts it into the
/// sequence's multiset.
proof fn lemma_insert_to_multiset(s: Seq<Coord>, j: int, x: Coord)
    requires
        0 <= j <= s.len(),
    ensures
        s.insert(j, x).to_multiset() =~= s.to_multiset().insert(x),
{
    broadcast use vstd::seq_lib::group_to_multiset_ensures;

    let t = s.insert(j, x);
    assert(t.remove(j) =~= s);
    assert(t[j] == x);
    assert(t.to_multiset().remove(x) =~= s.to_multiset());
    assert(t.contains(x));
    assert(t.to_multiset().count(x) > 0);
    assert(t.to_multiset() =~= t.to_multiset().remove(x).insert(x));
}

/// Sorts coordinate pairs in ascending lexicographic order.
fn sort_coords(cs: &Vec<Coord>) -> (r: Vec<Coord>)
    ensures
        r@ == spec_sort_coords(cs@),
{
    let leq = Ghost(|a: Coord, b: Coord| coord_leq(a, b));
    let mut out: Vec<Coord> = Vec::new();
    let mut i: usize = 0;
    proof {
        assert(cs@.take(0) =~= Seq::<Coord>::empty());
    }
    while i < cs.len()
        invariant
            i <= cs@.len(),
            forall|p: int, q: int|
                0 <= p < q < out@.len() ==> coord_leq(#[trigger] out@[p], #[trigger] out@[q]),
            out@.to_multiset() == cs@.take(i as int).to_multiset(),
        decreases cs@.len() - i,
    {
        let x = cs[i];
        let mut j: usize = 0;
        while j < out.len() && (out[j].0 < x.0 || (out[j].0 == x.0 && out[j].1 <= x.1))
            invariant
                j <= out@.len(),
                forall|k: int| 0 <= k < j ==> coord_leq(#[trigger] out@[k], x),
            decreases out@.len() - j,
        {
            j = j + 1;
        }
        proof {
            broadcast use vstd::seq_lib::group_to_multiset_ensures;

            lemma_insert_to_multiset(out@, j as int, x);
            assert(cs@.take(i + 1).drop_last() =~= cs@.take(i as int));
            assert(cs@.take(i + 1) =~= cs@.take(i as int).push(x));
            let newseq = out@.insert(j as int, x);
            assert(forall|p: int| 0 <= p < j ==> newseq[p] == out@[p]);
            assert(newseq[j as int] == x);
            assert(forall|q: int| j < q < newseq.len() ==> newseq[q] == out@[q - 1]);
            assert forall|p: int, q: int| 0 <= p < q < newseq.len() implies coord_leq(
                newseq[p],
                newseq[q],
            ) by {
                if q < j {
                    assert(coord_leq(out@[p], out@[q]));
                } else if p < j && q == j {
                    assert(coord_leq(out@[p], x));
                } else if p < j && q > j {
                    assert(coord_leq(out@[p], out@[q - 1]));
                } else if p == j {
                    assert(!coord_leq(out@[q - 1], x));
                    assert(coord_leq(x, out@[q - 1]));
                } else {
                    assert(coord_leq(out@[p - 1], out@[q - 1]));
                }
            }
        }
        out.insert(j, x);
        i = i + 1;
    }
    proof {
        assert(cs@.take(i as int) =~= cs@);
        cs@.lemma_sort_by_ensures(leq@);
        assert(sorted_by(out@, leq@));
        vstd::seq_lib::lemma_sorted_unique(out@, spec_sort_coords(cs@), leq@);
    }
    out
}

/// Strips up to three exonic bases genome-downward from the coding end.
fn adjust_fwd(sorted: &Vec<Coord>, end: u64) -> (r: u64)
    ensures
        r == spec_adjust_fwd(sorted@, end, 3),
{
    let ghost end0 = end;
    let mut end = end;
    let mut rem: u64 = 3;
    let mut i: usize = sorted.len();
    proof {
        assert(sorted@.take(sorted@.len() as int) =~= sorted@);
    }
    while i > 0 && rem > 0
        invariant
            i <= sorted@.len(),
            rem <= 3,
            spec_adjust_fwd(sorted@.take(i as int), end, rem as int) == spec_adjust_fwd(
                sorted@,
                end0,
                3,
            ),
        decreases i,
    {
        i = i - 1;
        let (s, e) = sorted[i];
        proof {
            assert(sorted@.take(i + 1).drop_last() =~= sorted@.take(i as int));
            assert(sorted@.take(i + 1).last() == sorted@[i as int]);
        }
        if s <= end && end <= e {
            let adv = if rem < end - s {
                rem
            } else {
                end - s
            };
            end = end - adv;
            rem = rem - adv;
        }
    }
    proof {
        if rem > 0 {
            assert(sorted@.take(0) =~= Seq::<Coord>::empty());
        }
    }
    end
}

/// Strips up to three exonic bases genome-upward from the coding start.
fn adjust_rev(sorted: &Vec<Coord>, start: u64) -> (r: u64)
    ensures
        r == spec_adjust_rev(sorted@, start, 3),
{
    let ghost start0 = start;
    let mut start = start;
    let mut rem: u64 = 3;
    let mut i: usize = 0;
    let n = sorted.len();
    proof {
        assert(sorted@.skip(0) =~= sorted@);
    }
    while i < n && rem > 0
        invariant
            i <= n,
            n == sorted@.len(),
            rem <= 3,
            spec_adjust_rev(sorted@.skip(i as int), start, rem as int) == spec_adjust_rev(
                sorted@,
                start0,
                3,
            ),
        decreases n - i,
    {
        let (s, e) = sorted[i];
        proof {
            assert(sorted@.skip(i as int).drop_first() =~= sorted@.skip(i + 1));
            assert(sorted@.skip(i as int).first() == sorted@[i as int]);
        }
        if s <= start && start <= e {
            let adv = if rem < e - start {
                rem
            } else {
                e - start
            };
            start = start + adv;
            rem = rem - adv;
        }
        i = i + 1;
    }
    start
}

/// Collects the first three exonic bases at or above `p`, clamped below
/// `hi`, as ascending genomic intervals.
fn pieces_up_exec(cs: &Vec<Coord>, p: u64, hi: u64) -> (r: Vec<Coord>)
    ensures
        r@ == pieces_up(cs@, p, 3, hi),
{
    let mut out: Vec<Coord> = Vec::new();
    let mut rem: u64 = 3;
    let mut i: usize = 0;
    let n = cs.len();
    proof {
        assert(cs@.skip(0) =~= cs@);
        assert(Seq::<Coord>::empty() + pieces_up(cs@, p, 3, hi) =~= pieces_up(cs@, p, 3, hi));
    }
    while i < n && rem > 0
        invariant
            i <= n,
            n == cs@.len(),
            rem <= 3,
            pieces_up(cs@, p, 3, hi) == out@ + pieces_up(cs@.skip(i as int), p, rem as int, hi),
        decreases n - i,
    {
        let (s, e) = cs[i];
        proof {
            assert(cs@.skip(i as int).drop_first() =~= cs@.skip(i + 1));
            assert(cs@.skip(i as int).first() == cs@[i as int]);
        }
        let lo = if p > s {
            p
        } else {
            s
        };
        let top = if hi < e {
            hi
        } else {
            e
        };
        if lo < top {
            let b = if top - lo > rem {
                lo + rem
            } else {
                top
            };
            let ghost oldout = out@;
            out.push((lo, b));
            proof {
                assert(out@ + pieces_up(cs@.skip(i + 1), p, rem - (b - lo), hi) =~= oldout + (seq![
                    (lo, b),
                ] + pieces_up(cs@.skip(i + 1), p, rem - (b - lo), hi)));
            }
            rem = rem - (b - lo);
        }
        i = i + 1;
    }
    proof {
        if rem > 0 {
            assert(cs@.skip(i as int) =~= Seq::<Coord>::empty());
        }
        assert(out@ + pieces_up(cs@.skip(i as int), p, rem as int, hi) =~= out@);
    }
    out
}

/// Collects the last three exonic bases strictly below `p`, as ascending
/// genomic intervals.
fn pieces_down_exec(cs: &Vec<Coord>, p: u64) -> (r: Vec<Coord>)
    ensures
        r@ == pieces_down(cs@, p, 3),
{
    let mut out: Vec<Coord> = Vec::new();
    let mut rem: u64 = 3;
    let mut i: usize = cs.len();
    proof {
        assert(cs@.take(cs@.len() as int) =~= cs@);
    }
    while i > 0 && rem > 0
        invariant
            i <= cs@.len(),
            rem <= 3,
            pieces_down(cs@, p, 3) == pieces_down(cs@.take(i as int), p, rem as int) + out@,
        decreases i,
    {
        i = i - 1;
        let (s, e) = cs[i];
        proof {
            assert(cs@.take(i + 1).drop_last() =~= cs@.take(i as int));
            assert(cs@.take(i + 1).last() == cs@[i as int]);
        }
        let hi = if p < e {
            p
        } else {
            e
        };
        if hi > s {
            let lo = if hi - s > rem {
                hi - rem
            } else {
                s
            };
            let ghost oldout = out@;
            out.insert(0, (lo, hi));
            proof {
                assert(out@ =~= seq![(lo, hi)] + oldout);
                assert(pieces_down(cs@.take(i as int), p, rem - (hi - lo)) + out@ =~= (pieces_down(
                    cs@.take(i as int),
                    p,
                    rem - (hi - lo),
                ) + seq![(lo, hi)]) + oldout);
            }
            rem = rem - (hi - lo);
        }
    }
    proof {
        if rem > 0 {
            assert(cs@.take(0) =~= Seq::<Coord>::empty());
        }
        assert(pieces_down(cs@.take(i as int), p, rem as int) + out@ =~= out@);
    }
    out
}

/// A found piece starts within the searched window.
pub proof fn lemma_find_piece_idx_props(ps: Seq<Coord>, s: u64, e: u64)
    ensures
        find_piece_idx(ps, s, e) matches Some(k) ==> 0 <= k < ps.len() && s <= ps[k].0 && ps[k].0
            < e,
    decreases ps.len(),
{
    if ps.len() > 0 && !(s <= ps[0].0 && ps[0].0 < e) {
        lemma_find_piece_idx_props(ps.drop_first(), s, e);
    }
}

/// No match among the first `i` pieces moves the search for the first piece
/// starting within `[s, e)` wholly past them.
proof fn lemma_find_piece_idx_from(ps: Seq<Coord>, s: u64, e: u64, i: int)
    requires
        0 <= i <= ps.len(),
        forall|k: int| 0 <= k < i ==> !(s <= (#[trigger] ps[k]).0 && ps[k].0 < e),
    ensures
        find_piece_idx(ps, s, e) == match find_piece_idx(ps.skip(i), s, e) {
            Some(k) => Some(k + i),
            None => None::<int>,
        },
    decreases i,
{
    if i > 0 {
        lemma_find_piece_idx_from(ps.drop_first(), s, e, i - 1);
        assert(ps.drop_first().skip(i - 1) =~= ps.skip(i));
    } else {
        assert(ps.skip(0) =~= ps);
    }
}

/// Finds the first piece whose start lies within `[s, e)`.
fn find_piece(ps: &Vec<Coord>, s: u64, e: u64) -> (r: Option<usize>)
    ensures
        r matches Some(k) ==> k < ps@.len() && find_piece_idx(ps@, s, e) == Some(k as int),
        r is None ==> find_piece_idx(ps@, s, e) is None,
{
    let mut i: usize = 0;
    let n = ps.len();
    while i < n
        invariant
            i <= n,
            n == ps@.len(),
            forall|k: int| 0 <= k < i ==> !(s <= (#[trigger] ps@[k]).0 && ps@[k].0 < e),
        decreases n - i,
    {
        if s <= ps[i].0 && ps[i].0 < e {
            proof {
                lemma_find_piece_idx_from(ps@, s, e, i as int);
                assert(ps@.skip(i as int).first() == ps@[i as int]);
            }
            return Some(i);
        }
        i = i + 1;
    }
    proof {
        lemma_find_piece_idx_from(ps@, s, e, i as int);
        assert(ps@.skip(i as int) =~= Seq::<Coord>::empty());
    }
    None
}

/// Pieces cut from valid exon intervals have non-negative spans.
pub open spec fn pieces_valid(ps: Seq<Coord>) -> bool {
    forall|k: int| 0 <= k < ps.len() ==> (#[trigger] ps[k]).0 <= ps[k].1
}

/// All spans of valid pieces are non-negative.
proof fn lemma_piece_spans_nonneg(ps: Seq<Coord>)
    requires
        pieces_valid(ps),
    ensures
        forall|k: int| 0 <= k < piece_spans(ps).len() ==> piece_spans(ps)[k] >= 0,
{
}

/// The frames of the pieces walked in ascending order, starting at frame 0.
fn piece_frames_fwd(ps: &Vec<Coord>) -> (r: Vec<u8>)
    requires
        pieces_valid(ps@),
    ensures
        r@.len() == ps@.len(),
        forall|k: int| 0 <= k < ps@.len() ==> #[trigger] r@[k] as int == piece_frame_fwd(ps@, k),
{
    let mut out: Vec<u8> = Vec::new();
    let mut cur: u8 = 0;
    let mut k: usize = 0;
    let n = ps.len();
    proof {
        assert(piece_spans(ps@).take(0) =~= Seq::<int>::empty());
    }
    while k < n
        invariant
            k <= n,
            n == ps@.len(),
            pieces_valid(ps@),
            out@.len() == k,
            cur as int == frames_fold(piece_spans(ps@).take(k as int)),
            0 <= cur < 3,
            forall|j: int| 0 <= j < k ==> #[trigger] out@[j] as int == piece_frame_fwd(ps@, j),
        decreases n - k,
    {
        out.push(cur);
        let span = ps[k].1 - ps[k].0;
        let next = crate::frame::calc_next_frame(span, cur);
        proof {
            assert(piece_spans(ps@).take(k + 1).drop_last() =~= piece_spans(ps@).take(k as int));
            assert(piece_spans(ps@).take(k + 1).last() == piece_spans(ps@)[k as int]);
            lemma_piece_spans_nonneg(ps@);
            crate::frame::lemma_frames_fold_range(piece_spans(ps@).take(k + 1));
        }
        cur = next;
        k = k + 1;
    }
    out
}

/// The frames of the pieces walked in descending order, starting at frame 0.
fn piece_frames_rev(ps: &Vec<Coord>) -> (r: Vec<u8>)
    requires
        pieces_valid(ps@),
    ensures
        r@.len() == ps@.len(),
        forall|k: int| 0 <= k < ps@.len() ==> #[trigger] r@[k] as int == piece_frame_rev(ps@, k),
{
    let n = ps.len();
    let mut tmp: Vec<u8> = Vec::new();
    let mut cur: u8 = 0;
    let mut k: usize = n;
    proof {
        assert(piece_spans(ps@).skip(n as int).reverse() =~= Seq::<int>::empty());
    }
    while k > 0
        invariant
            k <= n,
            n == ps@.len(),
            pieces_valid(ps@),
            tmp@.len() == n - k,
            cur as int == frames_fold(piece_spans(ps@).skip(k as int).reverse()),
            0 <= cur < 3,
            forall|j: int|
                0 <= j < n - k ==> #[trigger] tmp@[j] as int == piece_frame_rev(ps@, n - 1 - j),
        decreases k,
    {
        k = k - 1;
        tmp.push(cur);
        let span = ps[k].1 - ps[k].0;
        let next = crate::frame::calc_next_frame(span, cur);
        proof {
            assert(piece_spans(ps@).skip(k as int).reverse().drop_last() =~= piece_spans(
                ps@,
            ).skip(k + 1).reverse());
            assert(piece_spans(ps@).skip(k as int).reverse().last() == piece_spans(ps@)[k as int]);
            lemma_piece_spans_nonneg(ps@);
            crate::frame::lemma_frames_fold_range(piece_spans(ps@).skip(k as int).reverse());
        }
        cur = next;
    }
    let mut out: Vec<u8> = Vec::new();
    let mut j: usize = 0;
    while j < n
        invariant
            j <= n,
            n == ps@.len(),
            tmp@.len() == n,
            forall|m: int|
                0 <= m < n ==> #[trigger] tmp@[m] as int == piece_frame_rev(ps@, n - 1 - m),
            out@.len() == j,
            forall|m: int| 0 <= m < j ==> #[trigger] out@[m] as int == piece_frame_rev(ps@, m),
        decreases n - j,
    {
        out.push(tmp[n - 1 - j]);
        j = j + 1;
    }
    out
}

/// The running CDS frames entering each exon, walking in ascending order.
fn cds_frames_fwd(ivs: &Vec<Coord>, cr: Coord) -> (r: Vec<u8>)
    ensures
        r@.len() == ivs@.len(),
        forall|i: int|
            0 <= i < ivs@.len() ==> #[trigger] r@[i] as int == cds_frame_fwd(ivs@, cr, i),
{
    let mut out: Vec<u8> = Vec::new();
    let mut cur: u8 = 0;
    let mut i: usize = 0;
    let n = ivs.len();
    while i < n
        invariant
            i <= n,
            n == ivs@.len(),
            out@.len() == i,
            cur as int == cds_frame_fwd(ivs@, cr, i as int),
            0 <= cur < 3,
            forall|j: int| 0 <= j < i ==> #[trigger] out@[j] as int == cds_frame_fwd(ivs@, cr, j),
        decreases n - i,
    {
        out.push(cur);
        let (s, e) = ivs[i];
        let lo = if s > cr.0 {
            s
        } else {
            cr.0
        };
        let hi = if e < cr.1 {
            e
        } else {
            cr.1
        };
        if lo < hi {
            let next = crate::frame::calc_next_frame(hi - lo, cur);
            proof {
                assert(spec_next_frame(cds_span(ivs@[i as int], cr), cur as int) < 3) by {
                    assert(cds_span(ivs@[i as int], cr) == hi - lo);
                };
            }
            cur = next;
        }
        i = i + 1;
    }
    out
}

/// The running CDS frames entering each exon, walking in descending order.
fn cds_frames_rev(ivs: &Vec<Coord>, cr: Coord) -> (r: Vec<u8>)
    ensures
        r@.len() == ivs@.len(),
        forall|i: int|
            0 <= i < ivs@.len() ==> #[trigger] r@[i] as int == cds_frame_rev(ivs@, cr, i),
{
    let n = ivs.len();
    let mut tmp: Vec<u8> = Vec::new();
    let mut cur: u8 = 0;
    let mut k: usize = n;
    while k > 0
        invariant
            k <= n,
            n == ivs@.len(),
            tmp@.len() == n - k,
            k > 0 ==> cur as int == cds_frame_rev(ivs@, cr, k - 1),
            0 <= cur < 3,
            forall|j: int|
                0 <= j < n - k ==> #[trigger] tmp@[j] as int == cds_frame_rev(ivs@, cr, n - 1 - j),
        decreases k,
    {
        k = k - 1;
        tmp.push(cur);
        if k > 0 {
            let (s, e) = ivs[k];
            let lo = if s > cr.0 {
                s
            } else {
                cr.0
            };
            let hi = if e < cr.1 {
                e
            } else {
                cr.1
            };
            if lo < hi {
                let next = crate::frame::calc_next_frame(hi - lo, cur);
                proof {
                    assert(cds_span(ivs@[k as int], cr) == hi - lo);
                    assert(spec_next_frame(hi - lo, cur as int) < 3);
                }
                cur = next;
            }
        }
    }
    let mut out: Vec<u8> = Vec::new();
    let mut j: usize = 0;
    while j < n
        invariant
            j <= n,
            n == ivs@.len(),
            tmp@.len() == n,
            forall|m: int|
                0 <= m < n ==> #[trigger] tmp@[m] as int == cds_frame_rev(ivs@, cr, n - 1 - m),
            out@.len() == j,
            forall|m: int| 0 <= m < j ==> #[trigger] out@[m] as int == cds_frame_rev(ivs@, cr, m),
        decreases n - j,
    {
        out.push(tmp[n - 1 - j]);
        j = j + 1;
    }
    out
}

/// An exon feature over `[s, e)`.
fn feat(s: u64, e: u64, kind: ExonFeatureKind) -> (r: ExonFeature)
    ensures
        r == spec_feat(s as int, e as int, kind),
{
    Feature { interval: Interval { start: s, end: e }, kind }
}

/// The features of exon `i` on the forward strand.
#[verifier::rlimit(100)]
fn features_fwd_exec(
    ivs: &Vec<Coord>,
    cr: Coord,
    i: usize,
    sc: &Vec<Coord>,
    tc: &Vec<Coord>,
    scf: &Vec<u8>,
    tcf: &Vec<u8>,
    cds_f: u8,
) -> (r: Vec<ExonFeature>)
    requires
        i < ivs@.len(),
        sc@ == pieces_up(ivs@, cr.0, 3, cr.1),
        tc@ == pieces_up(ivs@, cr.1, 3, u64::MAX),
        scf@.len() == sc@.len(),
        forall|k: int| 0 <= k < sc@.len() ==> #[trigger] scf@[k] as int == piece_frame_fwd(sc@, k),
        tcf@.len() == tc@.len(),
        forall|k: int| 0 <= k < tc@.len() ==> #[trigger] tcf@[k] as int == piece_frame_fwd(tc@, k),
        cds_f as int == cds_frame_fwd(ivs@, cr, i as int),
    ensures
        r@ == spec_features_fwd(ivs@, cr, i as int),
{
    let (s, e) = ivs[i];
    let mut fs: Vec<ExonFeature> = Vec::new();
    if s < cr.0 {
        let u = if e < cr.0 {
            e
        } else {
            cr.0
        };
        fs.push(feat(s, u, ExonFeatureKind::UTR5));
    }
    match find_piece(sc, s, e) {
        Some(k) => {
            let a = if sc[k].0 > s {
                sc[k].0
            } else {
                s
            };
            let b = if sc[k].1 < e {
                sc[k].1
            } else {
                e
            };
            if a < b {
                fs.push(feat(a, b, ExonFeatureKind::StartCodon { frame: Some(scf[k]) }));
            }
        },
        None => {},
    }
    let clo = if s > cr.0 {
        s
    } else {
        cr.0
    };
    let chi = if e < cr.1 {
        e
    } else {
        cr.1
    };
    if clo < chi {
        fs.push(feat(clo, chi, ExonFeatureKind::CDS { frame: Some(cds_f) }));
    }
    let tfind = find_piece(tc, s, e);
    match tfind {
        Some(k) => {
            let a = if tc[k].0 > s {
                tc[k].0
            } else {
                s
            };
            let b = if tc[k].1 < e {
                tc[k].1
            } else {
                e
            };
            if a < b {
                fs.push(feat(a, b, ExonFeatureKind::StopCodon { frame: Some(tcf[k]) }));
            }
        },
        None => {},
    }
    let u3 = match tfind {
        Some(k) => {
            if tc[k].1 < e {
                tc[k].1
            } else {
                e
            }
        },
        None => {
            if s > cr.1 {
                s
            } else {
                cr.1
            }
        },
    };
    if u3 < e {
        fs.push(feat(u3, e, ExonFeatureKind::UTR3));
    }
    proof {
        assert(fs@ =~= spec_features_fwd(ivs@, cr, i as int));
    }
    fs
}

/// The features of exon `i` on the reverse strand.
#[verifier::rlimit(100)]
fn features_rev_exec(
    ivs: &Vec<Coord>,
    cr: Coord,
    i: usize,
    tc: &Vec<Coord>,
    sc: &Vec<Coord>,
    tcf: &Vec<u8>,
    scf: &Vec<u8>,
    cds_f: u8,
) -> (r: Vec<ExonFeature>)
    requires
        i < ivs@.len(),
        cr.0 >= 3,
        tc@ == pieces_down(ivs@, cr.0, 3),
        sc@ == pieces_down(ivs@, cr.1, 3),
        tcf@.len() == tc@.len(),
        forall|k: int| 0 <= k < tc@.len() ==> #[trigger] tcf@[k] as int == piece_frame_rev(tc@, k),
        scf@.len() == sc@.len(),
        forall|k: int| 0 <= k < sc@.len() ==> #[trigger] scf@[k] as int == piece_frame_rev(sc@, k),
        cds_f as int == cds_frame_rev(ivs@, cr, i as int),
    ensures
        r@ == spec_features_rev(ivs@, cr, i as int),
{
    let (s, e) = ivs[i];
    let mut fs: Vec<ExonFeature> = Vec::new();
    let tfind = find_piece(tc, s, e);
    if s < cr.0 {
        let end3 = match tfind {
            Some(k) => {
                if tc[k].0 > s {
                    tc[k].0
                } else {
                    s
                }
            },
            None => {
                if e < cr.0 - 3 {
                    e
                } else {
                    cr.0 - 3
                }
            },
        };
        if s < end3 {
            fs.push(feat(s, end3, ExonFeatureKind::UTR3));
        }
    }
    match tfind {
        Some(k) => {
            let a = if tc[k].0 > s {
                tc[k].0
            } else {
                s
            };
            let b = if tc[k].1 < e {
                tc[k].1
            } else {
                e
            };
            if a < b {
                fs.push(feat(a, b, ExonFeatureKind::StopCodon { frame: Some(tcf[k]) }));
            }
        },
        None => {},
    }
    let clo = if s > cr.0 {
        s
    } else {
        cr.0
    };
    let chi = if e < cr.1 {
        e
    } else {
        cr.1
    };
    if clo < chi {
        fs.push(feat(clo, chi, ExonFeatureKind::CDS { frame: Some(cds_f) }));
    }
    match find_piece(sc, s, e) {
        Some(k) => {
            let a = if sc[k].0 > s {
                sc[k].0
            } else {
                s
            };
            let b = if sc[k].1 < e {
                sc[k].1
            } else {
                e
            };
            if a < b {
                fs.push(feat(a, b, ExonFeatureKind::StartCodon { frame: Some(scf[k]) }));
            }
        },
        None => {},
    }
    if e > cr.1 {
        let u = if s > cr.1 {
            s
        } else {
            cr.1
        };
        if u < e {
            fs.push(feat(u, e, ExonFeatureKind::UTR5));
        }
    }
    proof {
        assert(fs@ =~= spec_features_rev(ivs@, cr, i as int));
    }
    fs
}

/// The features of exon `i` on an unknown strand.
fn features_unk_exec(ivs: &Vec<Coord>, cr: Coord, i: usize) -> (r: Vec<ExonFeature>)
    requires
        i < ivs@.len(),
    ensures
        r@ == spec_features_unk(ivs@, cr, i as int),
{
    let (s, e) = ivs[i];
    let mut fs: Vec<ExonFeature> = Vec::new();
    if s < cr.0 {
        let u = if e < cr.0 {
            e
        } else {
            cr.0
        };
        fs.push(feat(s, u, ExonFeatureKind::UTR));
    }
    let clo = if s > cr.0 {
        s
    } else {
        cr.0
    };
    let chi = if e < cr.1 {
        e
    } else {
        cr.1
    };
    if clo < chi {
        fs.push(feat(clo, chi, ExonFeatureKind::CDS { frame: None }));
    }
    if e > cr.1 {
        let u = if s > cr.1 {
            s
        } else {
            cr.1
        };
        fs.push(feat(u, e, ExonFeatureKind::UTR));
    }
    proof {
        assert(fs@ =~= spec_features_unk(ivs@, cr, i as int));
    }
    fs
}

/// Pieces walking genome-upward are valid intervals.
pub proof fn lemma_pieces_up_valid(cs: Seq<Coord>, p: u64, n: int, hi: u64)
    ensures
        pieces_valid(pieces_up(cs, p, n, hi)),
    decreases cs.len(),
{
    if n > 0 && cs.len() > 0 {
        lemma_pieces_up_valid(cs.drop_first(), p, n, hi);
        let lo = max(cs[0].0 as int, p as int);
        let top = min(cs[0].1 as int, hi as int);
        if lo < top {
            let b = min(top, lo + n);
            lemma_pieces_up_valid(cs.drop_first(), p, n - (b - lo), hi);
        }
    }
}

/// Pieces walking genome-downward are valid intervals.
pub proof fn lemma_pieces_down_valid(cs: Seq<Coord>, p: u64, n: int)
    ensures
        pieces_valid(pieces_down(cs, p, n)),
    decreases cs.len(),
{
    if n > 0 && cs.len() > 0 {
        lemma_pieces_down_valid(cs.drop_last(), p, n);
        let hi = min(cs.last().1 as int, p as int);
        let s = cs.last().0;
        if hi > s {
            let lo = max(s as int, hi - n);
            lemma_pieces_down_valid(cs.drop_last(), p, n - (hi - lo));
        }
    }
}

/// Clones an optional identifier.
fn clone_opt(o: &Option<String>) -> (r: Option<String>)
    ensures
        r == *o,
{
    match o {
        Some(s) => Some(s.clone()),
        None => None,
    }
}

/// Whether a built exon carries the given coordinates, labels, empty
/// attributes, and strand.
pub open spec fn exon_matches(
    x: Exon,
    seq_name: Seq<char>,
    iv: Coord,
    strand: Strand,
    eid: Option<String>,
    tid: Option<String>,
    gid: Option<String>,
) -> bool {
    &&& x.seq_name@ == seq_name
    &&& x.interval == Interval { start: iv.0, end: iv.1 }
    &&& x.strand == strand
    &&& x.id == eid
    &&& x.transcript_id == tid
    &&& x.gene_id == gid
    &&& attrs_entries(x.attributes) == attrs_empty()
}

/// What exon-feature inference returns when it succeeds: one exon per
/// coordinate pair, in ascending order, each carrying the features that its
/// position relative to the adjusted coding region dictates.
pub open spec fn infer_ok(
    exons: Seq<Exon>,
    seq_name: Seq<char>,
    strand: Strand,
    tid: Option<String>,
    gid: Option<String>,
    eid: Option<String>,
    cs: Seq<Coord>,
    coding: Option<Coord>,
    incl_stop: bool,
) -> bool {
    let sorted = spec_sort_coords(cs);
    let adj = match coding {
        None => None,
        Some(c) => Some(spec_adjusted_coding(sorted, c, strand, incl_stop)),
    };
    &&& exons.len() == sorted.len()
    &&& forall|i: int|
        0 <= i < sorted.len() ==> exon_matches(
            #[trigger] exons[i],
            seq_name,
            sorted[i],
            strand,
            eid,
            tid,
            gid,
        )
    &&& forall|i: int|
        0 <= i < sorted.len() ==> (#[trigger] exons[i]).features@ == spec_exon_features(
            sorted,
            adj,
            strand,
            i,
        )
}

/// Builds one exon.
fn make_exon(
    seq_name: &str,
    iv: Coord,
    strand: Strand,
    eid: &Option<String>,
    tid: &Option<String>,
    gid: &Option<String>,
    features: Vec<ExonFeature>,
) -> (r: Exon)
    ensures
        exon_matches(r, seq_name@, iv, strand, *eid, *tid, *gid),
        r.features == features,
{
    Exon {
        seq_name: seq_name.to_owned(),
        interval: Interval { start: iv.0, end: iv.1 },
        strand,
        id: clone_opt(eid),
        transcript_id: clone_opt(tid),
        gene_id: clone_opt(gid),
        attributes: attrs_new(),
        features,
    }
}

/// Infers exons and their features from coordinate values and identifiers.
///
/// The exon coordinates are sorted; with a coding region given, the region
/// is first normalized (when it includes the stop codon), validated against
/// the exon layout, and then every exon is populated with the UTR, codon,
/// and CDS sub-features that its position dictates, with frames assigned in
/// transcription order.
pub fn infer_exons(
    seq_name: &str,
    t_iv: Interval,
    strand: Strand,
    tid: &Option<String>,
    gid: &Option<String>,
    eid: &Option<String>,
    exon_coords: &Vec<Coord>,
    coding_coord: Option<Coord>,
    coding_incl_stop: bool,
) -> (r: Result<Vec<Exon>, ModelError>)
    ensures
        spec_infer_error(t_iv, strand, *tid, exon_coords@, coding_coord, coding_incl_stop)
            matches Some(e) ==> r == Err::<Vec<Exon>, ModelError>(e),
        spec_infer_error(t_iv, strand, *tid, exon_coords@, coding_coord, coding_incl_stop) is None
            ==> (r matches Ok(exons) && infer_ok(
            exons@,
            seq_name@,
            strand,
            *tid,
            *gid,
            *eid,
            exon_coords@,
            coding_coord,
            coding_incl_stop,
        )),
{
    let n = exon_coords.len();
    if n == 0 {
        return Err(ModelError::UnspecifiedExons(clone_opt(tid)));
    }
    let mut i: usize = 0;
    while i < n
        invariant
            i <= n,
            n == exon_coords@.len(),
            forall|k: int| 0 <= k < i ==> (#[trigger] exon_coords@[k]).0 < exon_coords@[k].1,
        decreases n - i,
    {
        if exon_coords[i].0 >= exon_coords[i].1 {
            return Err(ModelError::InvalidExonInterval(clone_opt(tid)));
        }
        i = i + 1;
    }
    assert(coords_valid(exon_coords@));
    let sorted = sort_coords(exon_coords);
    proof {
        let leq = |a: Coord, b: Coord| coord_leq(a, b);
        exon_coords@.lemma_sort_by_ensures(leq);
        broadcast use vstd::seq_lib::group_to_multiset_ensures;

        assert(sorted@.to_multiset() == exon_coords@.to_multiset());
        assert(sorted@.len() == sorted@.to_multiset().len());
        assert(exon_coords@.len() == exon_coords@.to_multiset().len());
    }
    let adj: Option<Coord> = match coding_coord {
        None => None,
        Some(c) => {
            if coding_incl_stop {
                match strand {
                    Strand::Forward => Some((c.0, adjust_fwd(&sorted, c.1))),
                    Strand::Reverse => Some((adjust_rev(&sorted, c.0), c.1)),
                    Strand::Unknown => Some(c),
                }
            } else {
                Some(c)
            }
        },
    };
    let first = sorted[0];
    let last = sorted[sorted.len() - 1];
    if first.0 != t_iv.start || last.1 != t_iv.end {
        return Err(ModelError::UnmatchedExons(clone_opt(tid)));
    }
    match adj {
        None => {
            let mut exons: Vec<Exon> = Vec::new();
            let mut i: usize = 0;
            let m = sorted.len();
            while i < m
                invariant
                    i <= m,
                    m == sorted@.len(),
                    exons@.len() == i,
                    forall|k: int|
                        0 <= k < i ==> exon_matches(
                            #[trigger] exons@[k],
                            seq_name@,
                            sorted@[k],
                            strand,
                            *eid,
                            *tid,
                            *gid,
                        ) && exons@[k].features@ == Seq::<ExonFeature>::empty(),
                decreases m - i,
            {
                exons.push(make_exon(seq_name, sorted[i], strand, eid, tid, gid, Vec::new()));
                i = i + 1;
            }
            Ok(exons)
        },
        Some(cr) => {
            if cr.0 >= cr.1 {
                return Err(ModelError::InvalidCodingInterval(clone_opt(tid)));
            }
            if cr.0 < first.0 || cr.1 > last.1 {
                return Err(ModelError::CodingNotFullyEnveloped(clone_opt(tid)));
            }
            let mut c0_in = false;
            let mut c1_in = false;
            let mut i: usize = 0;
            let m = sorted.len();
            while i < m
                invariant
                    i <= m,
                    m == sorted@.len(),
                    c0_in == exists|k: int|
                        0 <= k < i && (#[trigger] sorted@[k]).0 <= cr.0 && cr.0 <= sorted@[k].1,
                    c1_in == exists|k: int|
                        0 <= k < i && (#[trigger] sorted@[k]).0 <= cr.1 && cr.1 <= sorted@[k].1,
                decreases m - i,
            {
                let (s, e) = sorted[i];
                if s <= cr.0 && cr.0 <= e {
                    c0_in = true;
                }
                if s <= cr.1 && cr.1 <= e {
                    c1_in = true;
                }
                i = i + 1;
            }
            if !c0_in || !c1_in {
                return Err(ModelError::CodingInIntron(clone_opt(tid)));
            }
            let room = match strand {
                Strand::Forward => last.1 - cr.1 >= 3,
                Strand::Reverse => cr.0 - first.0 >= 3,
                Strand::Unknown => last.1 - cr.1 >= 3 && cr.0 - first.0 >= 3,
            };
            if !room {
                return Err(ModelError::CodingTooLarge(clone_opt(tid)));
            }
            if cr.1 - cr.0 < 3 {
                let mut spanning = false;
                let mut i: usize = 0;
                while i < m
                    invariant
                        i <= m,
                        m == sorted@.len(),
                        spanning == exists|k: int|
                            0 <= k < i && (#[trigger] sorted@[k]).0 <= cr.0 && sorted@[k].1 >= cr.1,
                    decreases m - i,
                {
                    let (s, e) = sorted[i];
                    if s <= cr.0 && e >= cr.1 {
                        spanning = true;
                    }
                    i = i + 1;
                }
                if spanning {
                    return Err(ModelError::CodingTooSmall(clone_opt(tid)));
                }
            }
            let mut exons: Vec<Exon> = Vec::new();
            let mut i: usize = 0;
            match strand {
                Strand::Forward => {
                    let sc = pieces_up_exec(&sorted, cr.0, cr.1);
                    let tc = pieces_up_exec(&sorted, cr.1, u64::MAX);
                    proof {
                        lemma_pieces_up_valid(sorted@, cr.0, 3, cr.1);
                        lemma_pieces_up_valid(sorted@, cr.1, 3, u64::MAX);
                    }
                    let scf = piece_frames_fwd(&sc);
                    let tcf = piece_frames_fwd(&tc);
                    let cdsf = cds_frames_fwd(&sorted, cr);
                    while i < m
                        invariant
                            i <= m,
                            m == sorted@.len(),
                            sc@ == pieces_up(sorted@, cr.0, 3, cr.1),
                            tc@ == pieces_up(sorted@, cr.1, 3, u64::MAX),
                            scf@.len() == sc@.len(),
                            forall|k: int|
                                0 <= k < sc@.len() ==> #[trigger] scf@[k] as int == piece_frame_fwd(
                                    sc@,
                                    k,
                                ),
                            tcf@.len() == tc@.len(),
                            forall|k: int|
                                0 <= k < tc@.len() ==> #[trigger] tcf@[k] as int == piece_frame_fwd(
                                    tc@,
                                    k,
                                ),
                            cdsf@.len() == m,
                            forall|k: int|
                                0 <= k < m ==> #[trigger] cdsf@[k] as int == cds_frame_fwd(
                                    sorted@,
                                    cr,
                                    k,
                                ),
                            exons@.len() == i,
                            forall|k: int|
                                0 <= k < i ==> exon_matches(
                                    #[trigger] exons@[k],
                                    seq_name@,
                                    sorted@[k],
                                    strand,
                                    *eid,
                                    *tid,
                                    *gid,
                                ) && exons@[k].features@ == spec_features_fwd(sorted@, cr, k),
                        decreases m - i,
                    {
                        let fs = features_fwd_exec(&sorted, cr, i, &sc, &tc, &scf, &tcf, cdsf[i]);
                        exons.push(make_exon(seq_name, sorted[i], strand, eid, tid, gid, fs));
                        i = i + 1;
                    }
                },
                Strand::Reverse => {
                    let tc = pieces_down_exec(&sorted, cr.0);
                    let sc = pieces_down_exec(&sorted, cr.1);
                    proof {
                        lemma_pieces_down_valid(sorted@, cr.0, 3);
                        lemma_pieces_down_valid(sorted@, cr.1, 3);
                    }
                    let tcf = piece_frames_rev(&tc);
                    let scf = piece_frames_rev(&sc);
                    let cdsf = cds_frames_rev(&sorted, cr);
                    while i < m
                        invariant
                            i <= m,
                            m == sorted@.len(),
                            cr.0 >= 3,
                            tc@ == pieces_down(sorted@, cr.0, 3),
                            sc@ == pieces_down(sorted@, cr.1, 3),
                            tcf@.len() == tc@.len(),
                            forall|k: int|
                                0 <= k < tc@.len() ==> #[trigger] tcf@[k] as int == piece_frame_rev(
                                    tc@,
                                    k,
                                ),
                            scf@.len() == sc@.len(),
                            forall|k: int|
                                0 <= k < sc@.len() ==> #[trigger] scf@[k] as int == piece_frame_rev(
                                    sc@,
                                    k,
                                ),
                            cdsf@.len() == m,
                            forall|k: int|
                                0 <= k < m ==> #[trigger] cdsf@[k] as int == cds_frame_rev(
                                    sorted@,
                                    cr,
                                    k,
                                ),
                            exons@.len() == i,
                            forall|k: int|
                                0 <= k < i ==> exon_matches(
                                    #[trigger] exons@[k],
                                    seq_name@,
                                    sorted@[k],
                                    strand,
                                    *eid,
                                    *tid,
                                    *gid,
                                ) && exons@[k].features@ == spec_features_rev(sorted@, cr, k),
                        decreases m - i,
                    {
                        let fs = features_rev_exec(&sorted, cr, i, &tc, &sc, &tcf, &scf, cdsf[i]);
                        exons.push(make_exon(seq_name, sorted[i], strand, eid, tid, gid, fs));
                        i = i + 1;
                    }
                },
                Strand::Unknown => {
                    while i < m
                        invariant
                            i <= m,
                            m == sorted@.len(),
                            exons@.len() == i,
                            forall|k: int|
                                0 <= k < i ==> exon_matches(
                                    #[trigger] exons@[k],
                                    seq_name@,
                                    sorted@[k],
                                    strand,
                                    *eid,
                                    *tid,
                                    *gid,
                                ) && exons@[k].features@ == spec_features_unk(sorted@, cr, k),
                        decreases m - i,
                    {
                        let fs = features_unk_exec(&sorted, cr, i);
                        exons.push(make_exon(seq_name, sorted[i], strand, eid, tid, gid, fs));
                        i = i + 1;
                    }
                },
            }
            Ok(exons)
        },
    }
}

} // verus!
