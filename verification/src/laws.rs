//! Laws of the exon-feature inference: proved facts that relate the built
//! entities, their sub-features, and the codon model.

use vstd::math::max;
use vstd::math::min;
use vstd::prelude::*;

use crate::exon::Exon;
use crate::feature::ExonFeature;
use crate::feature::ExonFeatureKind;
use crate::frame::frames_fold;
use crate::frame::spec_next_frame;
use crate::infer::exonic_count;
use crate::infer::lemma_find_piece_idx_props;
use crate::infer::lemma_pieces_down_valid;
use crate::infer::lemma_pieces_up_valid;
use crate::infer::spec_exon_features;
use crate::infer::infer_ok;
use crate::infer::pieces_down;
use crate::infer::pieces_up;
use crate::infer::spec_infer_error;
use crate::infer::spec_sort_coords;
use crate::infer::Coord;
use crate::interval::Interval;
use crate::strand::Strand;
use crate::transcript::first_stop_start;
use crate::transcript::last_stop_end;
use crate::transcript::spec_coding_coord;
use crate::transcript::spec_flat_features;
use crate::transcript::stop_walk_down;
use crate::transcript::stop_walk_up;

verus! {

/// The total number of bases spanned by a sequence of pieces.
pub open spec fn sum_spans(ps: Seq<Coord>) -> int
    decreases ps.len(),
{
    if ps.len() == 0 {
        0
    } else {
        sum_spans(ps.drop_last()) + (ps.last().1 - ps.last().0)
    }
}

/// The total span of a piece list grows by the front piece's span.
proof fn lemma_sum_spans_drop_first(ps: Seq<Coord>)
    requires
        ps.len() > 0,
    ensures
        sum_spans(ps) == (ps[0].1 - ps[0].0) + sum_spans(ps.drop_first()),
    decreases ps.len(),
{
    if ps.len() == 1 {
        assert(ps.drop_last() =~= Seq::<Coord>::empty());
        assert(ps.drop_first() =~= Seq::<Coord>::empty());
    } else {
        lemma_sum_spans_drop_first(ps.drop_last());
        assert(ps.drop_last().drop_first() =~= ps.drop_first().drop_last());
        assert(ps.drop_first().last() == ps.last());
        assert(ps.drop_last()[0] == ps[0]);
    }
}

/// Exonic bases counted from the back: dropping the last exon removes its
/// own clipped contribution.
proof fn lemma_exonic_count_drop_last(cs: Seq<Coord>, lo: int, hi: int)
    requires
        cs.len() > 0,
    ensures
        exonic_count(cs, lo, hi) == exonic_count(cs.drop_last(), lo, hi) + {
            let s = max(cs.last().0 as int, lo);
            let e = min(cs.last().1 as int, hi);
            if s < e {
                e - s
            } else {
                0
            }
        },
    decreases cs.len(),
{
    if cs.len() == 1 {
        assert(cs.drop_last() =~= Seq::<Coord>::empty());
        assert(cs.drop_first() =~= Seq::<Coord>::empty());
    } else {
        lemma_exonic_count_drop_last(cs.drop_first(), lo, hi);
        assert(cs.drop_first().drop_last() =~= cs.drop_last().drop_first());
        assert(cs.drop_first().last() == cs.last());
        assert(cs.drop_last()[0] == cs[0]);
    }
}

/// A codon walking genome-upward from `p` spans exactly as many bases as
/// are asked for, when the exons provide them below `hi`; in general it
/// spans the smaller of the bases asked for and the bases available.
pub proof fn lemma_pieces_up_total(cs: Seq<Coord>, p: u64, n: int, hi: u64)
    requires
        n >= 0,
    ensures
        sum_spans(pieces_up(cs, p, n, hi)) == min(n, exonic_count(cs, p as int, hi as int)),
    decreases cs.len(),
{
    if n == 0 || cs.len() == 0 {
        lemma_exonic_count_nonneg(cs, p as int, hi as int);
    } else {
        let lo = max(cs[0].0 as int, p as int);
        let top = min(cs[0].1 as int, hi as int);
        if lo >= top {
            lemma_pieces_up_total(cs.drop_first(), p, n, hi);
        } else {
            let b = min(top, lo + n);
            lemma_pieces_up_total(cs.drop_first(), p, n - (b - lo), hi);
            lemma_sum_spans_drop_first(
                seq![((lo as u64), (b as u64))] + pieces_up(cs.drop_first(), p, n - (b - lo), hi),
            );
            assert((seq![((lo as u64), (b as u64))] + pieces_up(
                cs.drop_first(),
                p,
                n - (b - lo),
                hi,
            )).drop_first() =~= pieces_up(cs.drop_first(), p, n - (b - lo), hi));
            lemma_exonic_count_nonneg(cs.drop_first(), p as int, hi as int);
        }
    }
}

/// A codon walking genome-downward from `p` spans exactly as many bases as
/// are asked for, when the exons provide them; in general it spans the
/// smaller of the bases asked for and the bases available below `p`.
pub proof fn lemma_pieces_down_total(cs: Seq<Coord>, p: u64, n: int)
    requires
        n >= 0,
    ensures
        sum_spans(pieces_down(cs, p, n)) == min(n, exonic_count(cs, 0, p as int)),
    decreases cs.len(),
{
    if n == 0 || cs.len() == 0 {
        lemma_exonic_count_nonneg(cs, 0, p as int);
    } else {
        let hi = min(cs.last().1 as int, p as int);
        let s = cs.last().0;
        lemma_exonic_count_drop_last(cs, 0, p as int);
        if hi <= s {
            lemma_pieces_down_total(cs.drop_last(), p, n);
        } else {
            let lo = max(s as int, hi - n);
            lemma_pieces_down_total(cs.drop_last(), p, n - (hi - lo));
            assert((pieces_down(cs.drop_last(), p, n - (hi - lo)) + seq![
                ((lo as u64), (hi as u64)),
            ]).drop_last() =~= pieces_down(cs.drop_last(), p, n - (hi - lo)));
            lemma_exonic_count_nonneg(cs.drop_last(), 0, p as int);
        }
    }
}

/// Exonic base counts are non-negative.
pub proof fn lemma_exonic_count_nonneg(cs: Seq<Coord>, lo: int, hi: int)
    ensures
        exonic_count(cs, lo, hi) >= 0,
    decreases cs.len(),
{
    if cs.len() > 0 {
        lemma_exonic_count_nonneg(cs.drop_first(), lo, hi);
    }
}

/// The start and stop codons of a coding transcript each span exactly three
/// bases, provided the exons offer at least three coding bases for the
/// start codon and three bases beyond the coding region for the stop codon.
/// The codons are the pieces that sub-feature synthesis distributes over
/// the exons: walking up from the coding boundaries on the forward strand,
/// walking down from them on the reverse strand.
pub proof fn lemma_codon_spans(sorted: Seq<Coord>, cr: Coord, strand: Strand)
    requires
        strand != Strand::Unknown,
        strand == Strand::Forward ==> exonic_count(sorted, cr.0 as int, cr.1 as int) >= 3
            && exonic_count(sorted, cr.1 as int, u64::MAX as int) >= 3,
        strand == Strand::Reverse ==> exonic_count(sorted, cr.0 as int, cr.1 as int) >= 3
            && exonic_count(sorted, 0, cr.0 as int) >= 3,
    ensures
        strand == Strand::Forward ==> sum_spans(pieces_up(sorted, cr.0, 3, cr.1)) == 3
            && sum_spans(pieces_up(sorted, cr.1, 3, u64::MAX)) == 3,
        strand == Strand::Reverse ==> sum_spans(pieces_down(sorted, cr.1, 3)) == 3 && sum_spans(
            pieces_down(sorted, cr.0, 3),
        ) == 3,
{
    if strand == Strand::Forward {
        lemma_pieces_up_total(sorted, cr.0, 3, cr.1);
        lemma_pieces_up_total(sorted, cr.1, 3, u64::MAX);
    } else {
        lemma_pieces_down_total(sorted, cr.1, 3);
        lemma_pieces_down_total(sorted, cr.0, 3);
        lemma_exonic_count_mono_lo(sorted, 0, cr.0 as int, cr.1 as int);
    }
}

/// Widening the window downward cannot lose exonic bases.
proof fn lemma_exonic_count_mono_lo(cs: Seq<Coord>, lo1: int, lo2: int, hi: int)
    requires
        lo1 <= lo2,
    ensures
        exonic_count(cs, lo2, hi) <= exonic_count(cs, lo1, hi),
    decreases cs.len(),
{
    if cs.len() > 0 {
        lemma_exonic_count_mono_lo(cs.drop_first(), lo1, lo2, hi);
    }
}

/// The frame walk returns to frame zero after the last coding piece,
/// provided every piece is at least as long as the frame it enters with and
/// the total length is a whole number of codons.
pub proof fn lemma_frames_return_to_zero(spans: Seq<int>)
    requires
        forall|i: int| 0 <= i < spans.len() ==> #[trigger] spans[i] >= frames_fold(spans.take(i)),
        sum_of(spans) % 3 == 0,
    ensures
        frames_fold(spans) == 0,
    decreases spans.len(),
{
    if spans.len() == 0 {
    } else {
        lemma_frames_cumulative(spans);
    }
}

/// The total of a sequence of spans.
pub open spec fn sum_of(spans: Seq<int>) -> int
    decreases spans.len(),
{
    if spans.len() == 0 {
        0
    } else {
        sum_of(spans.drop_last()) + spans.last()
    }
}

/// When every piece is at least as long as the frame it enters with, the
/// running frame tracks the walked length: it is the distance to the next
/// codon boundary.
proof fn lemma_frames_cumulative(spans: Seq<int>)
    requires
        forall|i: int| 0 <= i < spans.len() ==> #[trigger] spans[i] >= frames_fold(spans.take(i)),
    ensures
        (frames_fold(spans) + sum_of(spans)) % 3 == 0,
        frames_fold(spans) == 0 || frames_fold(spans) == 1 || frames_fold(spans) == 2,
    decreases spans.len(),
{
    if spans.len() == 0 {
    } else {
        let prefix = spans.drop_last();
        assert(forall|i: int|
            0 <= i < prefix.len() ==> #[trigger] prefix[i] >= frames_fold(prefix.take(i))) by {
            assert(forall|i: int|
                0 <= i < prefix.len() ==> prefix.take(i) =~= spans.take(i) && prefix[i]
                    == spans[i]);
        }
        lemma_frames_cumulative(prefix);
        let f = frames_fold(prefix);
        let s = spans.last();
        assert(spans.take(spans.len() - 1) =~= prefix);
        assert(s >= f);
        assert(frames_fold(spans) == spec_next_frame(s, f));
        assert(spec_next_frame(s, f) == (3 - ((s - f) % 3)) % 3);
        assert((spec_next_frame(s, f) + (s - f)) % 3 == 0) by {
            let d = s - f;
            assert(d >= 0);
            assert(((3 - (d % 3)) % 3 + d) % 3 == 0) by (nonlinear_arith)
                requires
                    d >= 0,
            ;
        }
        assert((f + sum_of(prefix)) % 3 == 0);
        assert(sum_of(spans) == sum_of(prefix) + s);
        assert((frames_fold(spans) + sum_of(spans)) % 3 == 0) by (nonlinear_arith)
            requires
                (spec_next_frame(s, f) + (s - f)) % 3 == 0,
                (f + sum_of(prefix)) % 3 == 0,
                sum_of(spans) == sum_of(prefix) + s,
                frames_fold(spans) == spec_next_frame(s, f),
        ;
    }
}

/// A built transcript's exons span it exactly: the first exon starts at the
/// transcript start and the last exon ends at the transcript end, whenever
/// exon inference accepted the inputs.
pub proof fn lemma_exons_span_transcript(
    exons: Seq<Exon>,
    seq_name: Seq<char>,
    t_iv: Interval,
    strand: Strand,
    tid: Option<String>,
    gid: Option<String>,
    eid: Option<String>,
    cs: Seq<Coord>,
    coding: Option<Coord>,
    incl_stop: bool,
)
    requires
        infer_ok(exons, seq_name, strand, tid, gid, eid, cs, coding, incl_stop),
        spec_infer_error(t_iv, strand, tid, cs, coding, incl_stop) is None,
    ensures
        exons.len() > 0,
        exons[0].interval.start == t_iv.start,
        exons[exons.len() - 1].interval.end == t_iv.end,
{
    let sorted = spec_sort_coords(cs);
    assert(cs.len() > 0);
    crate::infer::lemma_coord_leq_total_ordering();
    let leq = |a: Coord, b: Coord| crate::infer::coord_leq(a, b);
    cs.lemma_sort_by_ensures(leq);
    broadcast use vstd::seq_lib::group_to_multiset_ensures;

    assert(sorted.to_multiset() == cs.to_multiset());
    assert(sorted.len() == sorted.to_multiset().len());
    assert(cs.len() == cs.to_multiset().len());
    assert(sorted.len() == cs.len());
}

/// Every sub-feature of a built exon lies within the exon's interval and
/// is itself a valid interval.
#[verifier::rlimit(100)]
pub proof fn lemma_features_enveloped(ivs: Seq<Coord>, coding: Option<Coord>, strand: Strand, i: int)
    requires
        0 <= i < ivs.len(),
        ivs[i].0 < ivs[i].1,
    ensures
        forall|j: int|
            0 <= j < spec_exon_features(ivs, coding, strand, i).len() ==> {
                let f = #[trigger] spec_exon_features(ivs, coding, strand, i)[j];
                ivs[i].0 <= f.interval.start && f.interval.start < f.interval.end
                    && f.interval.end <= ivs[i].1
            },
{
    match coding {
        None => {},
        Some(cr) => {
            let s = ivs[i].0;
            let e = ivs[i].1;
            lemma_pieces_up_valid(ivs, cr.0, 3, cr.1);
            lemma_pieces_up_valid(ivs, cr.1, 3, u64::MAX);
            lemma_pieces_down_valid(ivs, cr.0, 3);
            lemma_pieces_down_valid(ivs, cr.1, 3);
            lemma_find_piece_idx_props(crate::infer::pieces_up(ivs, cr.0, 3, cr.1), s, e);
            lemma_find_piece_idx_props(crate::infer::pieces_up(ivs, cr.1, 3, u64::MAX), s, e);
            lemma_find_piece_idx_props(crate::infer::pieces_down(ivs, cr.0, 3), s, e);
            lemma_find_piece_idx_props(crate::infer::pieces_down(ivs, cr.1, 3), s, e);
        },
    }
}

/// Pieces walking genome-upward start at or above `p` and end at or below
/// `hi`.
pub proof fn lemma_pieces_up_bounds(cs: Seq<Coord>, p: u64, n: int, hi: u64)
    ensures
        forall|k: int|
            0 <= k < pieces_up(cs, p, n, hi).len() ==> p <= (#[trigger] pieces_up(
                cs,
                p,
                n,
                hi,
            )[k]).0 && pieces_up(cs, p, n, hi)[k].1 <= hi,
    decreases cs.len(),
{
    if n > 0 && cs.len() > 0 {
        let lo = max(cs[0].0 as int, p as int);
        let top = min(cs[0].1 as int, hi as int);
        if lo >= top {
            lemma_pieces_up_bounds(cs.drop_first(), p, n, hi);
            assert forall|k: int| 0 <= k < pieces_up(cs, p, n, hi).len() implies p <= (
            pieces_up(cs, p, n, hi)[k]).0 && pieces_up(cs, p, n, hi)[k].1 <= hi by {
                assert(pieces_up(cs, p, n, hi)[k] == pieces_up(cs.drop_first(), p, n, hi)[k]);
            }
        } else {
            let b = min(top, lo + n);
            lemma_pieces_up_bounds(cs.drop_first(), p, n - (b - lo), hi);
            let rest = pieces_up(cs.drop_first(), p, n - (b - lo), hi);
            assert(pieces_up(cs, p, n, hi) == seq![((lo as u64), (b as u64))] + rest);
            assert forall|k: int| 0 <= k < pieces_up(cs, p, n, hi).len() implies p <= (
            pieces_up(cs, p, n, hi)[k]).0 && pieces_up(cs, p, n, hi)[k].1 <= hi by {
                if k > 0 {
                    assert(pieces_up(cs, p, n, hi)[k] == rest[k - 1]);
                }
            }
        }
    }
}

/// Pieces walking genome-downward end at or below `p`.
pub proof fn lemma_pieces_down_bounds(cs: Seq<Coord>, p: u64, n: int)
    ensures
        forall|k: int|
            0 <= k < pieces_down(cs, p, n).len() ==> (#[trigger] pieces_down(cs, p, n)[k]).1 <= p,
    decreases cs.len(),
{
    if n > 0 && cs.len() > 0 {
        let hi = min(cs.last().1 as int, p as int);
        let s = cs.last().0;
        if hi <= s {
            lemma_pieces_down_bounds(cs.drop_last(), p, n);
            assert forall|k: int| 0 <= k < pieces_down(cs, p, n).len() implies (pieces_down(
                cs,
                p,
                n,
            )[k]).1 <= p by {
                assert(pieces_down(cs, p, n)[k] == pieces_down(cs.drop_last(), p, n)[k]);
            }
        } else {
            let lo = max(s as int, hi - n);
            lemma_pieces_down_bounds(cs.drop_last(), p, n - (hi - lo));
            let rest = pieces_down(cs.drop_last(), p, n - (hi - lo));
            assert(pieces_down(cs, p, n) == rest + seq![((lo as u64), (hi as u64))]);
            assert forall|k: int| 0 <= k < pieces_down(cs, p, n).len() implies (pieces_down(
                cs,
                p,
                n,
            )[k]).1 <= p by {
                if k < rest.len() {
                    assert(pieces_down(cs, p, n)[k] == rest[k]);
                }
            }
        }
    }
}

/// Exons that all end at or below the window give no exonic bases in it.
proof fn lemma_exonic_count_below(cs: Seq<Coord>, lb: int, hi: int)
    requires
        forall|k: int| 0 <= k < cs.len() ==> (#[trigger] cs[k]).1 <= lb,
    ensures
        exonic_count(cs, lb, hi) == 0,
    decreases cs.len(),
{
    if cs.len() > 0 {
        lemma_exonic_count_below(cs.drop_first(), lb, hi);
    }
}

/// When the exons offer at least `n` bases at or above `lb` and below `p`,
/// a codon walking genome-downward from `p` never dips below `lb`.
pub proof fn lemma_pieces_down_lower(cs: Seq<Coord>, p: u64, n: int, lb: int)
    requires
        n >= 0,
        lb >= 0,
        exonic_count(cs, lb, p as int) >= n,
        crate::infer::coords_disjoint(cs),
    ensures
        forall|k: int|
            0 <= k < pieces_down(cs, p, n).len() ==> (#[trigger] pieces_down(cs, p, n)[k]).0 >= lb,
    decreases cs.len(),
{
    if n > 0 && cs.len() > 0 {
        let hi = min(cs.last().1 as int, p as int);
        let s = cs.last().0;
        lemma_exonic_count_drop_last(cs, lb, p as int);
        assert(crate::infer::coords_disjoint(cs.drop_last())) by {
            assert(forall|i: int, j: int|
                0 <= i < j < cs.drop_last().len() ==> cs.drop_last()[i] == cs[i]
                    && cs.drop_last()[j] == cs[j]);
        }
        if hi <= s {
            lemma_pieces_down_lower(cs.drop_last(), p, n, lb);
            assert forall|k: int| 0 <= k < pieces_down(cs, p, n).len() implies (pieces_down(
                cs,
                p,
                n,
            )[k]).0 >= lb by {
                assert(pieces_down(cs, p, n)[k] == pieces_down(cs.drop_last(), p, n)[k]);
            }
        } else {
            let lo = max(s as int, hi - n);
            if lo >= lb {
                if hi - n >= s as int {
                    lemma_exonic_count_nonneg(cs.drop_last(), lb, p as int);
                } else {
                    assert(lo == s as int);
                    assert(max(s as int, lb) == s as int);
                }
                assert(exonic_count(cs.drop_last(), lb, p as int) >= n - (hi - lo));
                lemma_pieces_down_lower(cs.drop_last(), p, n - (hi - lo), lb);
                let rest = pieces_down(cs.drop_last(), p, n - (hi - lo));
                assert(pieces_down(cs, p, n) == rest + seq![((lo as u64), (hi as u64))]);
                assert forall|k: int| 0 <= k < pieces_down(cs, p, n).len() implies (pieces_down(
                    cs,
                    p,
                    n,
                )[k]).0 >= lb by {
                    if k < rest.len() {
                        assert(pieces_down(cs, p, n)[k] == rest[k]);
                    }
                }
            } else {
                assert(s < lb && hi - n < lb);
                assert(forall|k: int|
                    0 <= k < cs.drop_last().len() ==> (#[trigger] cs.drop_last()[k]).1 <= s) by {
                    assert(forall|k: int|
                        0 <= k < cs.len() - 1 ==> (#[trigger] cs[k]).1 <= cs[cs.len() - 1].0);
                }
                lemma_exonic_count_below(cs.drop_last(), lb, p as int);
                assert(exonic_count(cs, lb, p as int) == hi - max(s as int, lb));
                assert(false);
            }
        }
    }
}

/// Exons that all start at or above the window give no exonic bases in it.
proof fn lemma_exonic_count_above(cs: Seq<Coord>, lo: int, hi: int)
    requires
        forall|k: int| 0 <= k < cs.len() ==> (#[trigger] cs[k]).0 >= hi,
    ensures
        exonic_count(cs, lo, hi) == 0,
    decreases cs.len(),
{
    if cs.len() > 0 {
        lemma_exonic_count_above(cs.drop_first(), lo, hi);
    }
}

/// Pieces cut from exons that all start at or above a bound start there
/// too.
proof fn lemma_pieces_up_above(cs: Seq<Coord>, p: u64, n: int, hi: u64, bound: int)
    requires
        forall|k: int| 0 <= k < cs.len() ==> (#[trigger] cs[k]).0 >= bound,
        bound >= 0,
    ensures
        forall|k: int|
            0 <= k < pieces_up(cs, p, n, hi).len() ==> (#[trigger] pieces_up(cs, p, n, hi)[k]).0
                >= bound,
    decreases cs.len(),
{
    if n > 0 && cs.len() > 0 {
        let lo = max(cs[0].0 as int, p as int);
        let top = min(cs[0].1 as int, hi as int);
        if lo >= top {
            lemma_pieces_up_above(cs.drop_first(), p, n, hi, bound);
            assert forall|k: int| 0 <= k < pieces_up(cs, p, n, hi).len() implies (pieces_up(
                cs,
                p,
                n,
                hi,
            )[k]).0 >= bound by {
                assert(pieces_up(cs, p, n, hi)[k] == pieces_up(cs.drop_first(), p, n, hi)[k]);
            }
        } else {
            let b = min(top, lo + n);
            let rest = pieces_up(cs.drop_first(), p, n - (b - lo), hi);
            lemma_pieces_up_above(cs.drop_first(), p, n - (b - lo), hi, bound);
            assert(pieces_up(cs, p, n, hi) == seq![((lo as u64), (b as u64))] + rest);
            assert forall|k: int| 0 <= k < pieces_up(cs, p, n, hi).len() implies (pieces_up(
                cs,
                p,
                n,
                hi,
            )[k]).0 >= bound by {
                if k > 0 {
                    assert(pieces_up(cs, p, n, hi)[k] == rest[k - 1]);
                }
            }
        }
    }
}

/// A codon walking genome-upward from `p` occupies exactly the exonic
/// window between `p` and its own top: over sorted, disjoint exons, the
/// codon's bases are precisely the exonic bases from the boundary to where
/// the codon ends.
pub proof fn lemma_pieces_up_window(cs: Seq<Coord>, p: u64, n: int, hi: u64)
    requires
        n >= 0,
        crate::infer::coords_disjoint(cs),
        pieces_up(cs, p, n, hi).len() > 0,
    ensures
        exonic_count(cs, p as int, pieces_up(cs, p, n, hi).last().1 as int) == sum_spans(
            pieces_up(cs, p, n, hi),
        ),
    decreases cs.len(),
{
    let ps = pieces_up(cs, p, n, hi);
    let lo = max(cs[0].0 as int, p as int);
    let top = min(cs[0].1 as int, hi as int);
    assert(crate::infer::coords_disjoint(cs.drop_first())) by {
        assert(forall|i: int, j: int|
            0 <= i < j < cs.drop_first().len() ==> cs.drop_first()[i] == cs[i + 1]
                && cs.drop_first()[j] == cs[j + 1]);
    }
    if lo >= top {
        lemma_pieces_up_window(cs.drop_first(), p, n, hi);
        let last1 = ps.last().1 as int;
        crate::infer::lemma_pieces_up_valid(cs.drop_first(), p, n, hi);
        lemma_pieces_up_bounds(cs.drop_first(), p, n, hi);
        assert(min(cs[0].1 as int, last1) <= max(cs[0].0 as int, p as int)) by {
            assert(ps.last().1 <= hi);
        }
    } else {
        let b = min(top, lo + n);
        let rest = pieces_up(cs.drop_first(), p, n - (b - lo), hi);
        assert(ps == seq![((lo as u64), (b as u64))] + rest);
        lemma_sum_spans_drop_first(ps);
        assert(ps.drop_first() =~= rest);
        if rest.len() == 0 {
            assert(ps.last() == ((lo as u64), (b as u64)));
            assert(forall|k: int|
                0 <= k < cs.drop_first().len() ==> (#[trigger] cs.drop_first()[k]).0 >= cs[0].1);
            lemma_exonic_count_above(cs.drop_first(), p as int, b);
            assert(sum_spans(rest) == 0);
        } else {
            assert(ps.last() == rest.last());
            assert(forall|k: int|
                0 <= k < cs.drop_first().len() ==> (#[trigger] cs.drop_first()[k]).0 >= cs[0].1);
            lemma_pieces_up_above(cs.drop_first(), p, n - (b - lo), hi, cs[0].1 as int);
            crate::infer::lemma_pieces_up_valid(cs.drop_first(), p, n - (b - lo), hi);
            assert(rest.last().1 >= rest.last().0 >= cs[0].1);
            assert(b == cs[0].1 as int) by {
                if top == hi as int && (hi as int) < cs[0].1 as int {
                    assert(rest.len() > 0);
                    lemma_pieces_up_bounds(cs.drop_first(), p, n - (b - lo), hi);
                    assert(rest[0].1 <= hi);
                    assert(rest[0].0 <= rest[0].1);
                    assert(rest[0].0 >= cs[0].1);
                    assert(false);
                }
            }
            lemma_pieces_up_window(cs.drop_first(), p, n - (b - lo), hi);
        }
    }
}

/// Pieces cut from exons that all end at or below a bound end there too.
proof fn lemma_pieces_down_below(cs: Seq<Coord>, p: u64, n: int, bound: int)
    requires
        forall|k: int| 0 <= k < cs.len() ==> (#[trigger] cs[k]).1 <= bound,
    ensures
        forall|k: int|
            0 <= k < pieces_down(cs, p, n).len() ==> (#[trigger] pieces_down(cs, p, n)[k]).1
                <= bound,
    decreases cs.len(),
{
    if n > 0 && cs.len() > 0 {
        let hi = min(cs.last().1 as int, p as int);
        let s = cs.last().0;
        if hi <= s {
            lemma_pieces_down_below(cs.drop_last(), p, n, bound);
            assert forall|k: int| 0 <= k < pieces_down(cs, p, n).len() implies (pieces_down(
                cs,
                p,
                n,
            )[k]).1 <= bound by {
                assert(pieces_down(cs, p, n)[k] == pieces_down(cs.drop_last(), p, n)[k]);
            }
        } else {
            let lo = max(s as int, hi - n);
            let rest = pieces_down(cs.drop_last(), p, n - (hi - lo));
            lemma_pieces_down_below(cs.drop_last(), p, n - (hi - lo), bound);
            assert(pieces_down(cs, p, n) == rest + seq![((lo as u64), (hi as u64))]);
            assert forall|k: int| 0 <= k < pieces_down(cs, p, n).len() implies (pieces_down(
                cs,
                p,
                n,
            )[k]).1 <= bound by {
                if k < rest.len() {
                    assert(pieces_down(cs, p, n)[k] == rest[k]);
                }
            }
        }
    }
}

/// A codon walking genome-downward from `p` occupies exactly the exonic
/// window between its own bottom and `p`: over sorted, disjoint exons, the
/// codon's bases are precisely the exonic bases from where the codon starts
/// up to the boundary.
pub proof fn lemma_pieces_down_window(cs: Seq<Coord>, p: u64, n: int)
    requires
        n >= 0,
        crate::infer::coords_disjoint(cs),
        pieces_down(cs, p, n).len() > 0,
    ensures
        exonic_count(cs, pieces_down(cs, p, n).first().0 as int, p as int) == sum_spans(
            pieces_down(cs, p, n),
        ),
    decreases cs.len(),
{
    let ps = pieces_down(cs, p, n);
    let hi = min(cs.last().1 as int, p as int);
    let s = cs.last().0;
    assert(crate::infer::coords_disjoint(cs.drop_last())) by {
        assert(forall|i: int, j: int|
            0 <= i < j < cs.drop_last().len() ==> cs.drop_last()[i] == cs[i] && cs.drop_last()[j]
                == cs[j]);
    }
    lemma_exonic_count_drop_last(cs, ps.first().0 as int, p as int);
    if hi <= s {
        lemma_pieces_down_window(cs.drop_last(), p, n);
        crate::infer::lemma_pieces_down_valid(cs.drop_last(), p, n);
        lemma_pieces_down_bounds(cs.drop_last(), p, n);
    } else {
        let lo = max(s as int, hi - n);
        let rest = pieces_down(cs.drop_last(), p, n - (hi - lo));
        assert(ps == rest + seq![((lo as u64), (hi as u64))]);
        assert(ps.drop_last() =~= rest);
        assert(ps.last() == ((lo as u64), (hi as u64)));
        if rest.len() == 0 {
            assert(ps.first() == ((lo as u64), (hi as u64)));
            assert(forall|k: int|
                0 <= k < cs.drop_last().len() ==> (#[trigger] cs.drop_last()[k]).1 <= cs[cs.len()
                    - 1].0) by {
                assert(forall|k: int|
                    0 <= k < cs.len() - 1 ==> (#[trigger] cs[k]).1 <= cs[cs.len() - 1].0);
            }
            lemma_exonic_count_below(cs.drop_last(), lo, p as int);
            assert(sum_spans(rest) == 0);
        } else {
            assert(ps.first() == rest.first());
            assert(forall|k: int|
                0 <= k < cs.drop_last().len() ==> (#[trigger] cs.drop_last()[k]).1 <= cs[cs.len()
                    - 1].0) by {
                assert(forall|k: int|
                    0 <= k < cs.len() - 1 ==> (#[trigger] cs[k]).1 <= cs[cs.len() - 1].0);
            }
            lemma_pieces_down_below(cs.drop_last(), p, n - (hi - lo), s as int);
            crate::infer::lemma_pieces_down_valid(cs.drop_last(), p, n - (hi - lo));
            assert(rest.first().0 <= rest.first().1 <= s);
            assert(lo == s as int) by {
                if hi - n > s as int {
                    assert(n - (hi - lo) == 0);
                    assert(rest.len() == 0);
                    assert(false);
                }
            }
            lemma_pieces_down_window(cs.drop_last(), p, n - (hi - lo));
        }
    }
}

/// Whether a feature kind is a start or stop codon.
pub open spec fn is_codon_kind(k: crate::feature::ExonFeatureKind) -> bool {
    k matches crate::feature::ExonFeatureKind::StartCodon { .. } || k
        matches crate::feature::ExonFeatureKind::StopCodon { .. }
}

/// Whether a feature kind is a CDS.
pub open spec fn is_cds_kind(k: crate::feature::ExonFeatureKind) -> bool {
    k matches crate::feature::ExonFeatureKind::CDS { .. }
}

/// The sub-features of a built exon come in ascending order and are
/// pairwise non-overlapping, except that a start or stop codon may overlap
/// a CDS: codons lie within the coding sequence by convention. On the
/// reverse strand this asks for three coding bases, since a start codon cut
/// short of them would reach below the coding start into the stop codon's
/// bases.
#[verifier::rlimit(100)]
#[verifier::spinoff_prover]
pub proof fn lemma_features_ordered_and_disjoint(
    ivs: Seq<Coord>,
    cr: Coord,
    strand: Strand,
    i: int,
)
    requires
        0 <= i < ivs.len(),
        ivs[i].0 < ivs[i].1,
        cr.0 <= cr.1,
        strand == Strand::Reverse ==> exonic_count(ivs, cr.0 as int, cr.1 as int) >= 3
            && crate::infer::coords_disjoint(ivs),
    ensures
        forall|j1: int, j2: int|
            0 <= j1 < j2 < spec_exon_features(ivs, Some(cr), strand, i).len() ==> {
                let f1 = #[trigger] spec_exon_features(ivs, Some(cr), strand, i)[j1];
                let f2 = #[trigger] spec_exon_features(ivs, Some(cr), strand, i)[j2];
                (is_codon_kind(f1.kind) && is_cds_kind(f2.kind)) || (is_cds_kind(f1.kind)
                    && is_codon_kind(f2.kind)) || f1.interval.end <= f2.interval.start
            },
{
    let s = ivs[i].0;
    let e = ivs[i].1;
    match strand {
        Strand::Forward => {
            let sc = pieces_up(ivs, cr.0, 3, cr.1);
            let tc = pieces_up(ivs, cr.1, 3, u64::MAX);
            lemma_pieces_up_bounds(ivs, cr.0, 3, cr.1);
            lemma_pieces_up_bounds(ivs, cr.1, 3, u64::MAX);
            crate::infer::lemma_pieces_up_valid(ivs, cr.0, 3, cr.1);
            crate::infer::lemma_pieces_up_valid(ivs, cr.1, 3, u64::MAX);
            lemma_find_piece_idx_props(sc, s, e);
            lemma_find_piece_idx_props(tc, s, e);
        },
        Strand::Reverse => {
            let tc = pieces_down(ivs, cr.0, 3);
            let sc = pieces_down(ivs, cr.1, 3);
            lemma_pieces_down_bounds(ivs, cr.0, 3);
            lemma_pieces_down_bounds(ivs, cr.1, 3);
            crate::infer::lemma_pieces_down_valid(ivs, cr.0, 3);
            crate::infer::lemma_pieces_down_valid(ivs, cr.1, 3);
            lemma_find_piece_idx_props(tc, s, e);
            lemma_find_piece_idx_props(sc, s, e);
            lemma_pieces_down_lower(ivs, cr.1, 3, cr.0 as int);
        },
        Strand::Unknown => {},
    }
}


/// Whether a feature is a stop codon.
pub open spec fn is_stop_feat(f: ExonFeature) -> bool {
    f.kind matches ExonFeatureKind::StopCodon { .. }
}

/// The span a stop-codon feature contributes to the coding-coordinate
/// walks: its width, or nothing for other kinds.
pub open spec fn stop_contribution(f: ExonFeature) -> int {
    if f.kind matches ExonFeatureKind::StopCodon { .. } {
        if f.interval.end >= f.interval.start {
            f.interval.end - f.interval.start
        } else {
            0
        }
    } else {
        0
    }
}

/// The total span of the stop-codon features among `fs`.
pub open spec fn stop_span_sum(fs: Seq<ExonFeature>) -> int
    decreases fs.len(),
{
    if fs.len() == 0 {
        0
    } else {
        stop_span_sum(fs.drop_last()) + stop_contribution(fs.last())
    }
}

/// The stop-codon span total grows by the front feature's contribution.
proof fn lemma_stop_span_sum_drop_first(fs: Seq<ExonFeature>)
    requires
        fs.len() > 0,
    ensures
        stop_span_sum(fs) == stop_contribution(fs[0]) + stop_span_sum(fs.drop_first()),
    decreases fs.len(),
{
    if fs.len() == 1 {
        assert(fs.drop_last() =~= Seq::<ExonFeature>::empty());
        assert(fs.drop_first() =~= Seq::<ExonFeature>::empty());
    } else {
        lemma_stop_span_sum_drop_first(fs.drop_last());
        assert(fs.drop_last().drop_first() =~= fs.drop_first().drop_last());
        assert(fs.drop_first().last() == fs.last());
        assert(fs.drop_last()[0] == fs[0]);
    }
}

/// Where the descending stop-codon walk lands: at the start of a
/// stop-codon feature from which the stop-codon features to the end of the
/// list span exactly the bases walked, and only when a stop-codon feature
/// exists at all.
proof fn lemma_stop_walk_down_exact(fs: Seq<ExonFeature>, rem: int)
    requires
        rem > 0,
    ensures
        stop_walk_down(fs, rem) matches Some(x) ==> last_stop_end(fs) is Some && exists|k: int|
            0 <= k < fs.len() && is_stop_feat(#[trigger] fs[k]) && fs[k].interval.start == x
                && stop_span_sum(fs.skip(k)) == rem,
    decreases fs.len(),
{
    if fs.len() > 0 && stop_walk_down(fs, rem) is Some {
        let last = fs.last();
        if last.kind matches ExonFeatureKind::StopCodon { .. } {
            let sp = stop_contribution(last);
            if sp == rem {
                let k = fs.len() - 1;
                assert(fs.skip(k) =~= seq![last]);
                assert(fs.skip(k).len() == 1);
                assert(fs.skip(k).last() == last);
                assert(fs.skip(k).drop_last() =~= Seq::<ExonFeature>::empty());
                assert(stop_span_sum(Seq::<ExonFeature>::empty()) == 0);
                assert(stop_span_sum(fs.skip(k)) == stop_span_sum(fs.skip(k).drop_last())
                    + stop_contribution(fs.skip(k).last()));
                assert(stop_span_sum(fs.skip(k)) == rem);
                assert(fs[k].interval.start == stop_walk_down(fs, rem)->Some_0);
            } else {
                lemma_stop_walk_down_exact(fs.drop_last(), rem - sp);
                let x = stop_walk_down(fs, rem)->Some_0;
                let k = choose|k: int|
                    0 <= k < fs.drop_last().len() && is_stop_feat(#[trigger] fs.drop_last()[k])
                        && fs.drop_last()[k].interval.start == x && stop_span_sum(
                        fs.drop_last().skip(k),
                    ) == rem - sp;
                assert(fs.skip(k).drop_last() =~= fs.drop_last().skip(k));
                assert(fs.skip(k).last() == last);
                assert(stop_span_sum(fs.skip(k)) == rem);
                assert(fs[k] == fs.drop_last()[k]);
            }
        } else {
            lemma_stop_walk_down_exact(fs.drop_last(), rem);
            let x = stop_walk_down(fs, rem)->Some_0;
            let k = choose|k: int|
                0 <= k < fs.drop_last().len() && is_stop_feat(#[trigger] fs.drop_last()[k])
                    && fs.drop_last()[k].interval.start == x && stop_span_sum(
                    fs.drop_last().skip(k),
                ) == rem;
            assert(fs.skip(k).drop_last() =~= fs.drop_last().skip(k));
            assert(fs.skip(k).last() == last);
            assert(stop_span_sum(fs.skip(k)) == rem);
            assert(fs[k] == fs.drop_last()[k]);
        }
    }
}

/// Where the ascending stop-codon walk lands: at the end of a stop-codon
/// feature up to which the stop-codon features from the front of the list
/// span exactly the bases walked, and only when a stop-codon feature
/// exists at all.
proof fn lemma_stop_walk_up_exact(fs: Seq<ExonFeature>, rem: int)
    requires
        rem > 0,
    ensures
        stop_walk_up(fs, rem) matches Some(x) ==> first_stop_start(fs) is Some && exists|k: int|
            0 <= k < fs.len() && is_stop_feat(#[trigger] fs[k]) && fs[k].interval.end == x
                && stop_span_sum(fs.take(k + 1)) == rem,
    decreases fs.len(),
{
    if fs.len() > 0 && stop_walk_up(fs, rem) is Some {
        let head = fs[0];
        if head.kind matches ExonFeatureKind::StopCodon { .. } {
            let sp = stop_contribution(head);
            if sp == rem {
                let k = 0int;
                assert(fs.take(1).len() == 1);
                assert(fs.take(1).drop_last() =~= Seq::<ExonFeature>::empty());
                assert(fs.take(1).last() == head);
                assert(stop_span_sum(Seq::<ExonFeature>::empty()) == 0);
                assert(stop_span_sum(fs.take(1)) == stop_span_sum(fs.take(1).drop_last())
                    + stop_contribution(fs.take(1).last()));
                assert(stop_span_sum(fs.take(1)) == rem);
            } else {
                lemma_stop_walk_up_exact(fs.drop_first(), rem - sp);
                let x = stop_walk_up(fs, rem)->Some_0;
                let k = choose|k: int|
                    0 <= k < fs.drop_first().len() && is_stop_feat(#[trigger] fs.drop_first()[k])
                        && fs.drop_first()[k].interval.end == x && stop_span_sum(
                        fs.drop_first().take(k + 1),
                    ) == rem - sp;
                assert(fs.take(k + 2)[0] == head);
                assert(fs.take(k + 2).drop_first() =~= fs.drop_first().take(k + 1));
                lemma_stop_span_sum_drop_first(fs.take(k + 2));
                assert(stop_span_sum(fs.take(k + 2)) == rem);
                assert(fs[k + 1] == fs.drop_first()[k]);
            }
        } else {
            lemma_stop_walk_up_exact(fs.drop_first(), rem);
            let x = stop_walk_up(fs, rem)->Some_0;
            let k = choose|k: int|
                0 <= k < fs.drop_first().len() && is_stop_feat(#[trigger] fs.drop_first()[k])
                    && fs.drop_first()[k].interval.end == x && stop_span_sum(
                    fs.drop_first().take(k + 1),
                ) == rem;
            assert(fs.take(k + 2)[0] == head);
            assert(fs.take(k + 2).drop_first() =~= fs.drop_first().take(k + 1));
            lemma_stop_span_sum_drop_first(fs.take(k + 2));
            assert(stop_span_sum(fs.take(k + 2)) == rem);
            assert(fs[k + 1] == fs.drop_first()[k]);
        }
    }
}

/// On the forward strand the two coding-coordinate variants agree at the
/// 5' start and differ at the 3' end by exactly three stop-codon bases:
/// the stop-inclusive end is the last stop-codon feature's end, and the
/// stop-exclusive end marks the stop-codon feature from which the
/// remaining stop-codon features span exactly three bases.
pub proof fn lemma_coding_coord_variants_fwd(exons: Seq<Exon>)
    requires
        spec_coding_coord(exons, Strand::Forward, false) is Some,
    ensures
        spec_coding_coord(exons, Strand::Forward, true) is Some,
        spec_coding_coord(exons, Strand::Forward, true)->Some_0.0 == spec_coding_coord(
            exons,
            Strand::Forward,
            false,
        )->Some_0.0,
        ({
            let fs = spec_flat_features(exons);
            let x = spec_coding_coord(exons, Strand::Forward, false)->Some_0.1;
            &&& last_stop_end(fs) == Some(
                spec_coding_coord(exons, Strand::Forward, true)->Some_0.1,
            )
            &&& exists|k: int|
                0 <= k < fs.len() && is_stop_feat(#[trigger] fs[k]) && fs[k].interval.start == x
                    && stop_span_sum(fs.skip(k)) == 3
        }),
{
    let fs = spec_flat_features(exons);
    lemma_stop_walk_down_exact(fs, 3);
}

/// On the reverse strand the two coding-coordinate variants agree at the
/// 3' end and differ at the 5' start by exactly three stop-codon bases:
/// the stop-inclusive start is the first stop-codon feature's start, and
/// the stop-exclusive start marks the stop-codon feature up to which the
/// stop-codon features span exactly three bases.
pub proof fn lemma_coding_coord_variants_rev(exons: Seq<Exon>)
    requires
        spec_coding_coord(exons, Strand::Reverse, false) is Some,
    ensures
        spec_coding_coord(exons, Strand::Reverse, true) is Some,
        spec_coding_coord(exons, Strand::Reverse, true)->Some_0.1 == spec_coding_coord(
            exons,
            Strand::Reverse,
            false,
        )->Some_0.1,
        ({
            let fs = spec_flat_features(exons);
            let x = spec_coding_coord(exons, Strand::Reverse, false)->Some_0.0;
            &&& first_stop_start(fs) == Some(
                spec_coding_coord(exons, Strand::Reverse, true)->Some_0.0,
            )
            &&& exists|k: int|
                0 <= k < fs.len() && is_stop_feat(#[trigger] fs[k]) && fs[k].interval.end == x
                    && stop_span_sum(fs.take(k + 1)) == 3
        }),
{
    let fs = spec_flat_features(exons);
    lemma_stop_walk_up_exact(fs, 3);
}

} // verus!
