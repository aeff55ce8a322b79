//! The refFlat codec: 11-column tab-separated rows, one per transcript,
//! with comma-terminated exon coordinate lists.

use vstd::prelude::*;


use crate::errors::Error;
use crate::exon::Exon;
use crate::gene::Gene;
use crate::infer::spec_infer_error;
use crate::infer::Coord;
use crate::interval::Interval;
use crate::numchars::all_digits;
use crate::numchars::digits_val;
use crate::numchars::parse_u64;
use crate::numchars::u64_dec;
use crate::numchars::u64_to_chars;
use crate::strand::char_of_strand;
use crate::strand::Strand;
use crate::transcript::spec_coding_coord;
use crate::transcript::TBuilder;
use crate::transcript::Transcript;

verus! {

/// A raw refFlat row: gene id, transcript id, sequence name, strand
/// character, transcript start and end, coding start and end, exon count,
/// and the comma-terminated exon start and end lists.
pub type RefFlatRow = (String, String, String, char, u64, u64, u64, u64, u64, String, String);

/// Turns a string into its characters.
fn to_chars(s: &str) -> (r: Vec<char>)
    ensures
        r@ == s@,
{
    let mut out: Vec<char> = Vec::new();
    let n = s.unicode_len();
    let mut i: usize = 0;
    while i < n
        invariant
            i <= n,
            n == s@.len(),
            out@ == s@.take(i as int),
        decreases n - i,
    {
        out.push(s.get_char(i));
        proof {
            assert(s@.take(i + 1) =~= s@.take(i as int).push(s@[i as int]));
        }
        i = i + 1;
    }
    proof {
        assert(s@.take(n as int) =~= s@);
    }
    out
}

/// Relies on String FromIterator over chars: collecting characters yields
/// the string with exactly those characters.
#[verifier::external_body]
fn chars_to_string(v: &Vec<char>) -> (r: String)
    ensures
        r@ == v@,
{
    v.iter().collect()
}

/// The view of an optional identifier, empty when absent.
pub open spec fn opt_str_view(o: Option<String>) -> Seq<char> {
    match o {
        Some(s) => s@,
        None => Seq::empty(),
    }
}

/// The comma-terminated rendering of a coordinate list: each value in
/// canonical decimal form followed by one comma.
pub open spec fn render_list(vs: Seq<u64>) -> Seq<char>
    decreases vs.len(),
{
    if vs.len() == 0 {
        Seq::empty()
    } else {
        render_list(vs.drop_last()) + u64_dec(vs.last() as nat) + seq![',']
    }
}

/// One refFlat line: the 11 fields joined by tabs, with a trailing newline.
pub open spec fn spec_row_line(
    gene_id: Seq<char>,
    trx_id: Seq<char>,
    seq_name: Seq<char>,
    strand_char: char,
    trx_start: u64,
    trx_end: u64,
    coding_start: u64,
    coding_end: u64,
    num_exons: u64,
    starts: Seq<char>,
    ends: Seq<char>,
) -> Seq<char> {
    gene_id + seq!['\t'] + trx_id + seq!['\t'] + seq_name + seq!['\t'] + seq![strand_char] + seq![
        '\t',
    ] + u64_dec(trx_start as nat) + seq!['\t'] + u64_dec(trx_end as nat) + seq!['\t'] + u64_dec(
        coding_start as nat,
    ) + seq!['\t'] + u64_dec(coding_end as nat) + seq!['\t'] + u64_dec(num_exons as nat) + seq![
        '\t',
    ] + starts + seq!['\t'] + ends + seq!['\n']
}

/// The refFlat line of a raw row.
pub open spec fn spec_line_of_row(row: RefFlatRow) -> Seq<char> {
    spec_row_line(
        row.0@,
        row.1@,
        row.2@,
        row.3,
        row.4,
        row.5,
        row.6,
        row.7,
        row.8,
        row.9@,
        row.10@,
    )
}

/// A parsed refFlat record.
#[derive(Debug, Clone, PartialEq)]
pub struct RefFlatRecord {
    /// Gene identifier.
    pub gene_id: String,
    /// Transcript identifier.
    pub transcript_id: String,
    /// Name of the sequence the transcript lies on.
    pub seq_name: String,
    /// Strand character.
    pub strand_char: char,
    /// Transcript start coordinate.
    pub trx_start: u64,
    /// Transcript end coordinate.
    pub trx_end: u64,
    /// Coding start coordinate; equal to the coding end and the transcript
    /// end when there is no coding region.
    pub coding_start: u64,
    /// Coding end coordinate.
    pub coding_end: u64,
    /// Number of exons.
    pub num_exons: u64,
    /// Exon start coordinates, ascending.
    pub exon_starts: Vec<u64>,
    /// Exon end coordinates, ascending.
    pub exon_ends: Vec<u64>,
}

/// The refFlat line of a record: its exon lists in canonical
/// comma-terminated form.
pub open spec fn spec_line_of_record(rec: RefFlatRecord) -> Seq<char> {
    spec_row_line(
        rec.gene_id@,
        rec.transcript_id@,
        rec.seq_name@,
        rec.strand_char,
        rec.trx_start,
        rec.trx_end,
        rec.coding_start,
        rec.coding_end,
        rec.num_exons,
        render_list(rec.exon_starts@),
        render_list(rec.exon_ends@),
    )
}

/// The exon start coordinates of a transcript's exons.
pub open spec fn exon_starts_of(exons: Seq<Exon>) -> Seq<u64> {
    exons.map_values(|e: Exon| e.interval.start)
}

/// The exon end coordinates of a transcript's exons.
pub open spec fn exon_ends_of(exons: Seq<Exon>) -> Seq<u64> {
    exons.map_values(|e: Exon| e.interval.end)
}

/// The coding coordinate a transcript is written with: its stop-inclusive
/// coding coordinate, or the transcript end twice when none is defined.
pub open spec fn spec_written_coding(t: Transcript) -> Coord {
    match spec_coding_coord(t.exons@, t.strand, true) {
        Some(c) => c,
        None => (t.interval.end, t.interval.end),
    }
}

/// The refFlat line of a transcript: its written fields rendered as one
/// row.
pub open spec fn spec_transcript_line(t: Transcript) -> Seq<char> {
    spec_row_line(
        opt_str_view(t.gene_id),
        opt_str_view(t.id),
        t.seq_name@,
        char_of_strand(t.strand),
        t.interval.start,
        t.interval.end,
        spec_written_coding(t).0,
        spec_written_coding(t).1,
        t.exons@.len() as u64,
        render_list(exon_starts_of(t.exons@)),
        render_list(exon_ends_of(t.exons@)),
    )
}

/// The refFlat lines of a gene: one per transcript, in insertion order.
pub open spec fn spec_gene_lines(ts: Seq<(String, Transcript)>) -> Seq<char>
    decreases ts.len(),
{
    if ts.len() == 0 {
        Seq::empty()
    } else {
        spec_gene_lines(ts.drop_last()) + spec_transcript_line(ts.last().1)
    }
}

/// Whether a record carries exactly a transcript's written fields.
pub open spec fn record_of_transcript(rec: RefFlatRecord, t: Transcript) -> bool {
    &&& rec.gene_id@ == opt_str_view(t.gene_id)
    &&& rec.transcript_id@ == opt_str_view(t.id)
    &&& rec.seq_name@ == t.seq_name@
    &&& rec.strand_char == char_of_strand(t.strand)
    &&& rec.trx_start == t.interval.start
    &&& rec.trx_end == t.interval.end
    &&& rec.coding_start == spec_written_coding(t).0
    &&& rec.coding_end == spec_written_coding(t).1
    &&& rec.num_exons == t.exons@.len()
    &&& rec.exon_starts@ == exon_starts_of(t.exons@)
    &&& rec.exon_ends@ == exon_ends_of(t.exons@)
}

impl RefFlatRecord {
    /// Returns the gene identifier.
    pub fn gene_id(&self) -> (r: &str)
        ensures
            r@ == self.gene_id@,
    {
        self.gene_id.as_str()
    }

    /// Returns the transcript identifier.
    pub fn transcript_id(&self) -> (r: &str)
        ensures
            r@ == self.transcript_id@,
    {
        self.transcript_id.as_str()
    }

    /// Returns the sequence name.
    pub fn seq_name(&self) -> (r: &str)
        ensures
            r@ == self.seq_name@,
    {
        self.seq_name.as_str()
    }

    /// Reads a transcript's written fields into a record.
    pub fn from_transcript(t: &Transcript) -> (r: RefFlatRecord)
        requires
            t.exons@.len() <= u64::MAX,
        ensures
            record_of_transcript(r, *t),
    {
        let gene_id = match &t.gene_id {
            Some(s) => s.clone(),
            None => String::new(),
        };
        let transcript_id = match &t.id {
            Some(s) => s.clone(),
            None => String::new(),
        };
        let (coding_start, coding_end) = match t.coding_coord(true) {
            Some(c) => c,
            None => (t.interval.end, t.interval.end),
        };
        let n = t.exons.len();
        let mut exon_starts: Vec<u64> = Vec::new();
        let mut exon_ends: Vec<u64> = Vec::new();
        let mut i: usize = 0;
        while i < n
            invariant
                i <= n,
                n == t.exons@.len(),
                exon_starts@ == exon_starts_of(t.exons@.take(i as int)),
                exon_ends@ == exon_ends_of(t.exons@.take(i as int)),
            decreases n - i,
        {
            exon_starts.push(t.exons[i].interval.start);
            exon_ends.push(t.exons[i].interval.end);
            proof {
                assert(exon_starts_of(t.exons@.take(i + 1)) =~= exon_starts_of(
                    t.exons@.take(i as int),
                ).push(t.exons@[i as int].interval.start));
                assert(exon_ends_of(t.exons@.take(i + 1)) =~= exon_ends_of(
                    t.exons@.take(i as int),
                ).push(t.exons@[i as int].interval.end));
            }
            i = i + 1;
        }
        proof {
            assert(t.exons@.take(n as int) =~= t.exons@);
            assert(exon_starts_of(t.exons@).len() == t.exons@.len());
        }
        RefFlatRecord {
            gene_id,
            transcript_id,
            seq_name: t.seq_name.clone(),
            strand_char: t.strand.symbol(),
            trx_start: t.interval.start,
            trx_end: t.interval.end,
            coding_start,
            coding_end,
            num_exons: n as u64,
            exon_starts,
            exon_ends,
        }
    }
}

/// Writer that renders rows, records, transcripts, and genes as refFlat
/// lines into an in-memory buffer.
#[derive(Debug)]
pub struct RefFlatWriter {
    /// The characters written so far.
    pub buf: Vec<char>,
}

/// Appends a string's characters to the buffer.
fn push_str_chars(buf: &mut Vec<char>, s: &str)
    ensures
        final(buf)@ == old(buf)@ + s@,
{
    let n = s.unicode_len();
    let mut i: usize = 0;
    while i < n
        invariant
            i <= n,
            n == s@.len(),
            buf@ == old(buf)@ + s@.take(i as int),
        decreases n - i,
    {
        buf.push(s.get_char(i));
        proof {
            assert(old(buf)@ + s@.take(i + 1) =~= (old(buf)@ + s@.take(i as int)).push(
                s@[i as int],
            ));
        }
        i = i + 1;
    }
    proof {
        assert(s@.take(n as int) =~= s@);
    }
}

/// Appends a coordinate in canonical decimal form to the buffer.
fn push_u64_chars(buf: &mut Vec<char>, v: u64)
    ensures
        final(buf)@ == old(buf)@ + u64_dec(v as nat),
{
    let cs = u64_to_chars(v);
    let n = cs.len();
    let mut i: usize = 0;
    while i < n
        invariant
            i <= n,
            n == cs@.len(),
            cs@ == u64_dec(v as nat),
            buf@ == old(buf)@ + cs@.take(i as int),
        decreases n - i,
    {
        buf.push(cs[i]);
        proof {
            assert(old(buf)@ + cs@.take(i + 1) =~= (old(buf)@ + cs@.take(i as int)).push(
                cs@[i as int],
            ));
        }
        i = i + 1;
    }
    proof {
        assert(cs@.take(n as int) =~= cs@);
    }
}

/// Appends a comma-terminated coordinate list to the buffer.
fn push_list_chars(buf: &mut Vec<char>, vs: &Vec<u64>)
    ensures
        final(buf)@ == old(buf)@ + render_list(vs@),
{
    let n = vs.len();
    let mut i: usize = 0;
    proof {
        assert(render_list(vs@.take(0)) =~= Seq::<char>::empty());
        assert(buf@ =~= old(buf)@ + render_list(vs@.take(0)));
    }
    while i < n
        invariant
            i <= n,
            n == vs@.len(),
            buf@ == old(buf)@ + render_list(vs@.take(i as int)),
        decreases n - i,
    {
        push_u64_chars(buf, vs[i]);
        buf.push(',');
        proof {
            assert(vs@.take(i + 1).drop_last() =~= vs@.take(i as int));
            assert(vs@.take(i + 1).last() == vs@[i as int]);
            assert(old(buf)@ + render_list(vs@.take(i + 1)) =~= ((old(buf)@ + render_list(
                vs@.take(i as int),
            )) + u64_dec(vs@[i as int] as nat)).push(','));
        }
        i = i + 1;
    }
    proof {
        assert(vs@.take(n as int) =~= vs@);
    }
}

impl RefFlatWriter {
    /// Creates a writer over a fresh in-memory buffer.
    pub fn from_memory() -> (r: RefFlatWriter)
        ensures
            r.buf@ == Seq::<char>::empty(),
    {
        RefFlatWriter { buf: Vec::new() }
    }

    /// Returns everything written so far as one string.
    pub fn as_string(&self) -> (r: String)
        ensures
            r@ == self.buf@,
    {
        chars_to_string(&self.buf)
    }

    /// Writes one raw row as a refFlat line.
    #[verifier::rlimit(100)]
    pub fn write(&mut self, row: &RefFlatRow) -> (r: Result<(), Error>)
        ensures
            r is Ok,
            final(self).buf@ == old(self).buf@ + spec_line_of_row(*row),
    {
        let buf = &mut self.buf;
        push_str_chars(buf, row.0.as_str());
        buf.push('\t');
        push_str_chars(buf, row.1.as_str());
        buf.push('\t');
        push_str_chars(buf, row.2.as_str());
        buf.push('\t');
        buf.push(row.3);
        buf.push('\t');
        push_u64_chars(buf, row.4);
        buf.push('\t');
        push_u64_chars(buf, row.5);
        buf.push('\t');
        push_u64_chars(buf, row.6);
        buf.push('\t');
        push_u64_chars(buf, row.7);
        buf.push('\t');
        push_u64_chars(buf, row.8);
        buf.push('\t');
        push_str_chars(buf, row.9.as_str());
        buf.push('\t');
        push_str_chars(buf, row.10.as_str());
        buf.push('\n');
        proof {
            assert(self.buf@ =~= old(self).buf@ + spec_line_of_row(*row));
        }
        Ok(())
    }

    /// Writes one record as a refFlat line, its exon lists in canonical
    /// comma-terminated form.
    #[verifier::rlimit(100)]
    pub fn write_record(&mut self, rec: &RefFlatRecord) -> (r: Result<(), Error>)
        ensures
            r is Ok,
            final(self).buf@ == old(self).buf@ + spec_line_of_record(*rec),
    {
        let buf = &mut self.buf;
        push_str_chars(buf, rec.gene_id.as_str());
        buf.push('\t');
        push_str_chars(buf, rec.transcript_id.as_str());
        buf.push('\t');
        push_str_chars(buf, rec.seq_name.as_str());
        buf.push('\t');
        buf.push(rec.strand_char);
        buf.push('\t');
        push_u64_chars(buf, rec.trx_start);
        buf.push('\t');
        push_u64_chars(buf, rec.trx_end);
        buf.push('\t');
        push_u64_chars(buf, rec.coding_start);
        buf.push('\t');
        push_u64_chars(buf, rec.coding_end);
        buf.push('\t');
        push_u64_chars(buf, rec.num_exons);
        buf.push('\t');
        push_list_chars(buf, &rec.exon_starts);
        buf.push('\t');
        push_list_chars(buf, &rec.exon_ends);
        buf.push('\n');
        proof {
            assert(self.buf@ =~= old(self).buf@ + spec_line_of_record(*rec));
        }
        Ok(())
    }

    /// Writes one transcript as a refFlat line, using its stop-inclusive
    /// coding coordinate; without one, the coding columns both carry the
    /// transcript end.
    pub fn write_transcript(&mut self, t: &Transcript) -> (r: Result<(), Error>)
        requires
            t.exons@.len() <= u64::MAX,
        ensures
            r is Ok,
            final(self).buf@ == old(self).buf@ + spec_transcript_line(*t),
    {
        let rec = RefFlatRecord::from_transcript(t);
        let res = self.write_record(&rec);
        proof {
            assert(spec_line_of_record(rec) =~= spec_transcript_line(*t));
        }
        res
    }

    /// Writes every transcript of a gene, in insertion order.
    pub fn write_gene(&mut self, gene: &Gene) -> (r: Result<(), Error>)
        requires
            forall|i: int|
                0 <= i < gene.transcripts@.len() ==> (#[trigger] gene.transcripts@[
                    i
                ]).1.exons@.len() <= u64::MAX,
        ensures
            r is Ok,
            final(self).buf@ == old(self).buf@ + spec_gene_lines(gene.transcripts@),
    {
        let n = gene.transcripts.len();
        let mut i: usize = 0;
        proof {
            assert(self.buf@ =~= old(self).buf@ + spec_gene_lines(gene.transcripts@.take(0)));
        }
        while i < n
            invariant
                i <= n,
                n == gene.transcripts@.len(),
                forall|k: int|
                    0 <= k < gene.transcripts@.len() ==> (#[trigger] gene.transcripts@[
                        k
                    ]).1.exons@.len() <= u64::MAX,
                self.buf@ == old(self).buf@ + spec_gene_lines(gene.transcripts@.take(i as int)),
            decreases n - i,
        {
            let res = self.write_transcript(&gene.transcripts[i].1);
            match res {
                Ok(()) => {},
                Err(e) => {
                    return Err(e);
                },
            }
            proof {
                assert(gene.transcripts@.take(i + 1).drop_last() =~= gene.transcripts@.take(
                    i as int,
                ));
                assert(gene.transcripts@.take(i + 1).last() == gene.transcripts@[i as int]);
                assert(old(self).buf@ + spec_gene_lines(gene.transcripts@.take(i + 1)) =~= (old(
                    self,
                ).buf@ + spec_gene_lines(gene.transcripts@.take(i as int))) + spec_transcript_line(
                    gene.transcripts@[i as int].1,
                ));
            }
            i = i + 1;
        }
        proof {
            assert(gene.transcripts@.take(n as int) =~= gene.transcripts@);
        }
        Ok(())
    }
}

/// The index of the first occurrence of `c` in `s`.
pub open spec fn find_idx(s: Seq<char>, c: char) -> Option<int>
    decreases s.len(),
{
    if s.len() == 0 {
        None
    } else if s[0] == c {
        Some(0int)
    } else {
        match find_idx(s.drop_first(), c) {
            Some(j) => Some(j + 1),
            None => None,
        }
    }
}

/// A found occurrence lies within the sequence.
pub proof fn lemma_find_idx_bounds(s: Seq<char>, c: char)
    ensures
        find_idx(s, c) matches Some(j) ==> 0 <= j < s.len(),
    decreases s.len(),
{
    if s.len() > 0 && s[0] != c {
        lemma_find_idx_bounds(s.drop_first(), c);
    }
}

/// No occurrence among the first `i` characters moves the search for `c`
/// wholly past them.
proof fn lemma_find_idx_from(s: Seq<char>, c: char, i: int)
    requires
        0 <= i <= s.len(),
        forall|k: int| 0 <= k < i ==> s[k] != c,
    ensures
        find_idx(s, c) == match find_idx(s.skip(i), c) {
            Some(j) => Some(j + i),
            None => None::<int>,
        },
    decreases i,
{
    if i > 0 {
        lemma_find_idx_from(s.drop_first(), c, i - 1);
        assert(s.drop_first().skip(i - 1) =~= s.skip(i));
    } else {
        assert(s.skip(0) =~= s);
    }
}

/// The fields of `s` split on `sep`: one more field than separators, in
/// order, the separators consumed.
pub open spec fn split_by(s: Seq<char>, sep: char) -> Seq<Seq<char>>
    decreases s.len(),
    via split_by_decreases
{
    match find_idx(s, sep) {
        None => seq![s],
        Some(j) => seq![s.take(j)] + split_by(s.skip(j + 1), sep),
    }
}

#[via_fn]
proof fn split_by_decreases(s: Seq<char>, sep: char) {
    lemma_find_idx_bounds(s, sep);
}

/// Whether a field is a valid coordinate: nonempty, all digits, in range.
pub open spec fn num_field_ok(f: Seq<char>) -> bool {
    f.len() > 0 && all_digits(f) && digits_val(f) <= u64::MAX
}

/// The coordinates of a comma-terminated list: every field nonempty, all
/// digits, in range, and every field terminated by its comma.
pub open spec fn parse_list(s: Seq<char>) -> Option<Seq<u64>>
    decreases s.len(),
    via parse_list_decreases
{
    if s.len() == 0 {
        Some(Seq::empty())
    } else {
        match find_idx(s, ',') {
            None => None,
            Some(j) => {
                let f = s.take(j);
                if num_field_ok(f) {
                    match parse_list(s.skip(j + 1)) {
                        Some(rest) => Some(seq![digits_val(f) as u64] + rest),
                        None => None,
                    }
                } else {
                    None
                }
            },
        }
    }
}

#[via_fn]
proof fn parse_list_decreases(s: Seq<char>) {
    lemma_find_idx_bounds(s, ',');
}

/// Whether a line is a well-formed refFlat row: 11 tab-separated fields, a
/// one-character strand field, numeric coordinates, and exon lists whose
/// lengths both equal the exon count.
pub open spec fn spec_line_ok(line: Seq<char>) -> bool {
    let fs = split_by(line, '\t');
    &&& fs.len() == 11
    &&& fs[3].len() == 1
    &&& num_field_ok(fs[4])
    &&& num_field_ok(fs[5])
    &&& num_field_ok(fs[6])
    &&& num_field_ok(fs[7])
    &&& num_field_ok(fs[8])
    &&& match parse_list(fs[9]) {
        Some(ss) => ss.len() == digits_val(fs[8]),
        None => false,
    }
    &&& match parse_list(fs[10]) {
        Some(es) => es.len() == digits_val(fs[8]),
        None => false,
    }
}

/// Whether `rec` carries exactly the fields of the well-formed line.
pub open spec fn record_matches_line(rec: RefFlatRecord, line: Seq<char>) -> bool {
    let fs = split_by(line, '\t');
    &&& rec.gene_id@ == fs[0]
    &&& rec.transcript_id@ == fs[1]
    &&& rec.seq_name@ == fs[2]
    &&& rec.strand_char == fs[3][0]
    &&& rec.trx_start == digits_val(fs[4])
    &&& rec.trx_end == digits_val(fs[5])
    &&& rec.coding_start == digits_val(fs[6])
    &&& rec.coding_end == digits_val(fs[7])
    &&& rec.num_exons == digits_val(fs[8])
    &&& Some(rec.exon_starts@) == parse_list(fs[9])
    &&& Some(rec.exon_ends@) == parse_list(fs[10])
}

/// Finds the first occurrence of `sep` within `[from, to)`.
fn find_sep(chars: &Vec<char>, from: usize, to: usize, sep: char) -> (r: Option<usize>)
    requires
        from <= to <= chars@.len(),
    ensures
        r matches Some(j) ==> from <= j < to && find_idx(
            chars@.subrange(from as int, to as int),
            sep,
        ) == Some(j - from),
        r is None ==> find_idx(chars@.subrange(from as int, to as int), sep) is None,
{
    let ghost sub = chars@.subrange(from as int, to as int);
    let mut i: usize = from;
    while i < to
        invariant
            from <= i <= to <= chars@.len(),
            sub == chars@.subrange(from as int, to as int),
            forall|k: int| 0 <= k < i - from ==> sub[k] != sep,
        decreases to - i,
    {
        if chars[i] == sep {
            proof {
                lemma_find_idx_from(sub, sep, i - from);
                assert(sub.skip(i - from).first() == sub[i - from]);
                assert(sub.skip(i - from).drop_first() =~= sub.skip(i - from + 1));
            }
            return Some(i);
        }
        proof {
            assert(sub[i - from] == chars@[i as int]);
        }
        i = i + 1;
    }
    proof {
        lemma_find_idx_from(sub, sep, to - from);
        assert(sub.skip(to - from) =~= Seq::<char>::empty());
    }
    None
}

/// Copies the characters within `[from, to)` into a string.
fn range_to_string(chars: &Vec<char>, from: usize, to: usize) -> (r: String)
    requires
        from <= to <= chars@.len(),
    ensures
        r@ == chars@.subrange(from as int, to as int),
{
    let mut out: Vec<char> = Vec::new();
    let mut i: usize = from;
    while i < to
        invariant
            from <= i <= to <= chars@.len(),
            out@ == chars@.subrange(from as int, i as int),
        decreases to - i,
    {
        out.push(chars[i]);
        proof {
            assert(chars@.subrange(from as int, i + 1) =~= chars@.subrange(
                from as int,
                i as int,
            ).push(chars@[i as int]));
        }
        i = i + 1;
    }
    chars_to_string(&out)
}

/// Parses a comma-terminated coordinate list within `[from, to)`.
fn parse_list_exec(chars: &Vec<char>, from: usize, to: usize) -> (r: Option<Vec<u64>>)
    requires
        from <= to <= chars@.len(),
    ensures
        r matches Some(v) ==> parse_list(chars@.subrange(from as int, to as int)) == Some(v@),
        r is None ==> parse_list(chars@.subrange(from as int, to as int)) is None,
{
    let ghost sub = chars@.subrange(from as int, to as int);
    let mut out: Vec<u64> = Vec::new();
    let mut pos: usize = from;
    proof {
        assert(sub.skip(0) =~= sub);
    }
    while pos < to
        invariant
            from <= pos <= to <= chars@.len(),
            sub == chars@.subrange(from as int, to as int),
            parse_list(sub) == match parse_list(sub.skip(pos - from)) {
                Some(rest) => Some(out@ + rest),
                None => None::<Seq<u64>>,
            },
        decreases to - pos,
    {
        let ghost rest = sub.skip(pos - from);
        let j = match find_sep(chars, pos, to, ',') {
            Some(j) => j,
            None => {
                proof {
                    assert(chars@.subrange(pos as int, to as int) =~= rest);
                }
                return None;
            },
        };
        proof {
            assert(chars@.subrange(pos as int, to as int) =~= rest);
            assert(rest.take(j - pos) =~= chars@.subrange(pos as int, j as int));
            assert(rest.skip(j - pos + 1) =~= sub.skip(j + 1 - from));
        }
        let v = match parse_u64(chars, pos, j) {
            Some(v) => v,
            None => {
                return None;
            },
        };
        out.push(v);
        proof {
            assert(out@ + parse_list(sub.skip(j + 1 - from)).unwrap() =~= out@.drop_last() + (seq![
                v,
            ] + parse_list(sub.skip(j + 1 - from)).unwrap()));
        }
        pos = j + 1;
    }
    proof {
        assert(sub.skip(to - from) =~= Seq::<char>::empty());
        assert(out@ + Seq::<u64>::empty() =~= out@);
    }
    Some(out)
}

/// Whether a raw row's exon lists are well-formed and match its exon count.
pub open spec fn spec_row_ok(row: RefFlatRow) -> bool {
    &&& match parse_list(row.9@) {
        Some(ss) => ss.len() == row.8,
        None => false,
    }
    &&& match parse_list(row.10@) {
        Some(es) => es.len() == row.8,
        None => false,
    }
}

impl RefFlatRecord {
    /// Lifts a raw row into a record, parsing its exon coordinate lists and
    /// rejecting lists that are malformed or disagree with the exon count.
    pub fn try_from_row(row: RefFlatRow) -> (r: Result<RefFlatRecord, Error>)
        ensures
            r matches Ok(rec) ==> spec_row_ok(row) && rec.gene_id == row.0 && rec.transcript_id
                == row.1 && rec.seq_name == row.2 && rec.strand_char == row.3 && rec.trx_start
                == row.4 && rec.trx_end == row.5 && rec.coding_start == row.6 && rec.coding_end
                == row.7 && rec.num_exons == row.8 && Some(rec.exon_starts@) == parse_list(row.9@)
                && Some(rec.exon_ends@) == parse_list(row.10@),
            r matches Err(e) ==> !spec_row_ok(row) && e matches Error::RefFlat(_),
    {
        let starts_chars = to_chars(row.9.as_str());
        let n9 = starts_chars.len();
        let exon_starts = match parse_list_exec(&starts_chars, 0, n9) {
            Some(v) => v,
            None => {
                proof {
                    assert(starts_chars@.subrange(0, n9 as int) =~= row.9@);
                }
                return Err(Error::RefFlat("malformed exon starts"));
            },
        };
        let ends_chars = to_chars(row.10.as_str());
        let n10 = ends_chars.len();
        let exon_ends = match parse_list_exec(&ends_chars, 0, n10) {
            Some(v) => v,
            None => {
                proof {
                    assert(ends_chars@.subrange(0, n10 as int) =~= row.10@);
                }
                return Err(Error::RefFlat("malformed exon ends"));
            },
        };
        proof {
            assert(starts_chars@.subrange(0, n9 as int) =~= row.9@);
            assert(ends_chars@.subrange(0, n10 as int) =~= row.10@);
        }
        if exon_starts.len() as u64 != row.8 || exon_ends.len() as u64 != row.8 {
            return Err(Error::RefFlat("exon count does not match the exon lists"));
        }
        Ok(
            RefFlatRecord {
                gene_id: row.0,
                transcript_id: row.1,
                seq_name: row.2,
                strand_char: row.3,
                trx_start: row.4,
                trx_end: row.5,
                coding_start: row.6,
                coding_end: row.7,
                num_exons: row.8,
                exon_starts,
                exon_ends,
            },
        )
    }
}

/// Parses one refFlat line within `[from, to)` into a record.
fn parse_line(chars: &Vec<char>, from: usize, to: usize) -> (r: Result<RefFlatRecord, Error>)
    requires
        from <= to <= chars@.len(),
    ensures
        r matches Ok(rec) ==> spec_line_ok(chars@.subrange(from as int, to as int))
            && record_matches_line(rec, chars@.subrange(from as int, to as int)),
        r matches Err(e) ==> !spec_line_ok(chars@.subrange(from as int, to as int))
            && e matches Error::RefFlat(_),
{
    let ghost line = chars@.subrange(from as int, to as int);
    let mut bounds: Vec<(usize, usize)> = Vec::new();
    let mut pos: usize = from;
    let ghost fs = split_by(line, '\t');
    proof {
        assert(line.skip(0) =~= line);
        assert(bounds@.map_values(|b: (usize, usize)| chars@.subrange(b.0 as int, b.1 as int))
            =~= Seq::<Seq<char>>::empty());
    }
    loop
        invariant_except_break
            fs =~= bounds@.map_values(|b: (usize, usize)| chars@.subrange(b.0 as int, b.1 as int))
                + split_by(line.skip(pos - from), '\t'),
        invariant
            from <= pos <= to <= chars@.len(),
            line == chars@.subrange(from as int, to as int),
            fs == split_by(line, '\t'),
            forall|k: int|
                0 <= k < bounds@.len() ==> from <= (#[trigger] bounds@[k]).0 <= bounds@[k].1 <= to,
        ensures
            fs =~= bounds@.map_values(|b: (usize, usize)| chars@.subrange(b.0 as int, b.1 as int)),
        decreases to - pos + 1,
    {
        let ghost rest = line.skip(pos - from);
        let ghost done = bounds@.map_values(
            |b: (usize, usize)| chars@.subrange(b.0 as int, b.1 as int),
        );
        match find_sep(chars, pos, to, '\t') {
            Some(j) => {
                proof {
                    assert(chars@.subrange(pos as int, to as int) =~= rest);
                    assert(rest.take(j - pos) =~= chars@.subrange(pos as int, j as int));
                    assert(rest.skip(j - pos + 1) =~= line.skip(j + 1 - from));
                }
                bounds.push((pos, j));
                proof {
                    assert(bounds@.map_values(
                        |b: (usize, usize)| chars@.subrange(b.0 as int, b.1 as int),
                    ) =~= done.push(chars@.subrange(pos as int, j as int)));
                    assert(done.push(chars@.subrange(pos as int, j as int)) + split_by(
                        line.skip(j + 1 - from),
                        '\t',
                    ) =~= done + (seq![rest.take(j - pos)] + split_by(rest.skip(j - pos + 1), '\t')));
                }
                pos = j + 1;
            },
            None => {
                proof {
                    assert(chars@.subrange(pos as int, to as int) =~= rest);
                }
                bounds.push((pos, to));
                proof {
                    assert(bounds@.map_values(
                        |b: (usize, usize)| chars@.subrange(b.0 as int, b.1 as int),
                    ) =~= done.push(rest));
                    assert(done.push(rest) =~= done + seq![rest]);
                }
                break ;
            },
        }
    }
    let nf = bounds.len();
    proof {
        assert(fs.len() == bounds@.len());
        assert forall|k: int| 0 <= k < nf implies fs[k] == chars@.subrange(
            (#[trigger] bounds@[k]).0 as int,
            bounds@[k].1 as int,
        ) by {
            assert(fs[k] == bounds@.map_values(
                |b: (usize, usize)| chars@.subrange(b.0 as int, b.1 as int),
            )[k]);
        }
    }
    if nf != 11 {
        return Err(Error::RefFlat("a refFlat row needs 11 tab-separated fields"));
    }
    let (s3, e3) = bounds[3];
    if e3 - s3 != 1 {
        return Err(Error::RefFlat("the strand field needs exactly one character"));
    }
    let strand_char = chars[s3];
    proof {
        assert(fs[3][0] == chars@[s3 as int]);
    }
    let (s4, e4) = bounds[4];
    let trx_start = match parse_u64(chars, s4, e4) {
        Some(v) => v,
        None => {
            return Err(Error::RefFlat("malformed transcript start"));
        },
    };
    let (s5, e5) = bounds[5];
    let trx_end = match parse_u64(chars, s5, e5) {
        Some(v) => v,
        None => {
            return Err(Error::RefFlat("malformed transcript end"));
        },
    };
    let (s6, e6) = bounds[6];
    let coding_start = match parse_u64(chars, s6, e6) {
        Some(v) => v,
        None => {
            return Err(Error::RefFlat("malformed coding start"));
        },
    };
    let (s7, e7) = bounds[7];
    let coding_end = match parse_u64(chars, s7, e7) {
        Some(v) => v,
        None => {
            return Err(Error::RefFlat("malformed coding end"));
        },
    };
    let (s8, e8) = bounds[8];
    let num_exons = match parse_u64(chars, s8, e8) {
        Some(v) => v,
        None => {
            return Err(Error::RefFlat("malformed exon count"));
        },
    };
    let (s9, e9) = bounds[9];
    let exon_starts = match parse_list_exec(chars, s9, e9) {
        Some(v) => v,
        None => {
            return Err(Error::RefFlat("malformed exon starts"));
        },
    };
    let (s10, e10) = bounds[10];
    let exon_ends = match parse_list_exec(chars, s10, e10) {
        Some(v) => v,
        None => {
            return Err(Error::RefFlat("malformed exon ends"));
        },
    };
    if exon_starts.len() as u64 != num_exons || exon_ends.len() as u64 != num_exons {
        return Err(Error::RefFlat("exon count does not match the exon lists"));
    }
    let (s0, e0) = bounds[0];
    let (s1, e1) = bounds[1];
    let (s2, e2) = bounds[2];
    Ok(
        RefFlatRecord {
            gene_id: range_to_string(chars, s0, e0),
            transcript_id: range_to_string(chars, s1, e1),
            seq_name: range_to_string(chars, s2, e2),
            strand_char,
            trx_start,
            trx_end,
            coding_start,
            coding_end,
            num_exons,
            exon_starts,
            exon_ends,
        },
    )
}

/// A rendered coordinate list in cons form: the first value's digits, one
/// comma, then the rest.
proof fn lemma_render_list_cons(vs: Seq<u64>)
    requires
        vs.len() > 0,
    ensures
        render_list(vs) =~= u64_dec(vs[0] as nat) + seq![','] + render_list(vs.drop_first()),
    decreases vs.len(),
{
    if vs.len() == 1 {
        assert(vs.drop_last() =~= Seq::<u64>::empty());
        assert(vs.drop_first() =~= Seq::<u64>::empty());
    } else {
        lemma_render_list_cons(vs.drop_last());
        assert(vs.drop_last().drop_first() =~= vs.drop_first().drop_last());
        assert(vs.drop_first().last() == vs.last());
        assert(vs.drop_last()[0] == vs[0]);
        assert(render_list(vs.drop_first()) =~= render_list(vs.drop_first().drop_last()) + u64_dec(
            vs.last() as nat,
        ) + seq![',']);
    }
}

/// Round trip: parsing a rendered coordinate list gives back the values.
/// Together with the writer's and reader's contracts, a written exon list
/// reads back unchanged.
pub proof fn lemma_render_parse_list(vs: Seq<u64>)
    ensures
        parse_list(render_list(vs)) == Some(vs),
    decreases vs.len(),
{
    if vs.len() == 0 {
        assert(render_list(vs).len() == 0);
        assert(parse_list(render_list(vs)) == Some(Seq::<u64>::empty()));
        assert(Seq::<u64>::empty() =~= vs);
    } else {
        lemma_render_list_cons(vs);
        let d = u64_dec(vs[0] as nat);
        let s = render_list(vs);
        crate::numchars::lemma_dec_parse_round_trip(vs[0] as nat);
        assert(forall|k: int| 0 <= k < d.len() ==> s[k] == d[k]);
        assert(forall|k: int|
            0 <= k < d.len() ==> crate::numchars::is_digit_char(#[trigger] d[k]));
        assert(forall|k: int| 0 <= k < d.len() ==> s[k] != ',') by {
            assert(forall|k: int|
                0 <= k < d.len() ==> crate::numchars::is_digit_char(#[trigger] s[k]));
            assert((',' as u32) == 44);
        }
        lemma_find_idx_from(s, ',', d.len() as int);
        assert(s.skip(d.len() as int).first() == ',');
        assert(find_idx(s.skip(d.len() as int), ',') == Some(0int));
        assert(find_idx(s, ',') == Some(d.len() as int));
        assert(s.take(d.len() as int) =~= d);
        assert(s.skip(d.len() as int + 1) =~= render_list(vs.drop_first()));
        lemma_render_parse_list(vs.drop_first());
        assert(num_field_ok(d));
        assert(parse_list(s) == Some(seq![(digits_val(d) as u64)] + vs.drop_first()));
        assert(seq![(digits_val(d) as u64)] + vs.drop_first() =~= vs);
    }
}

/// The end of the line starting at `pos`: the next newline, or the end of
/// the input.
pub open spec fn line_end(chars: Seq<char>, pos: int) -> int {
    match find_idx(chars.skip(pos), '\n') {
        Some(j) => pos + j,
        None => chars.len() as int,
    }
}

/// The position after the line starting at `pos`: past its newline, or the
/// end of the input.
pub open spec fn next_pos_after(chars: Seq<char>, pos: int) -> int {
    let le = line_end(chars, pos);
    if le < chars.len() {
        le + 1
    } else {
        chars.len() as int
    }
}

/// The exon coordinate pairs of a record.
pub open spec fn rec_coords(rec: RefFlatRecord) -> Seq<Coord> {
    Seq::new(rec.exon_starts@.len(), |i: int| (rec.exon_starts@[i], rec.exon_ends@[i]))
}

/// The coding coordinate of a record: coding start and end both equal to
/// the transcript end mean that there is none.
pub open spec fn rec_coding(rec: RefFlatRecord) -> Option<Coord> {
    if rec.coding_start == rec.trx_end && rec.coding_end == rec.trx_end {
        None
    } else {
        Some((rec.coding_start, rec.coding_end))
    }
}

/// The error that building a record's transcript raises, if any: the
/// transcript interval is validated first, then the strand character, then
/// exon inference runs with a stop-inclusive coding coordinate.
pub open spec fn transcript_build_error(rec: RefFlatRecord) -> Option<Error> {
    if rec.trx_start >= rec.trx_end {
        Some(Error::Model(crate::errors::ModelError::InvalidInterval))
    } else {
        match crate::strand::strand_of_char(rec.strand_char) {
            None => Some(
                Error::Model(crate::errors::ModelError::InvalidStrandChar(rec.strand_char)),
            ),
            Some(st) => match spec_infer_error(
                Interval { start: rec.trx_start, end: rec.trx_end },
                st,
                Some(rec.transcript_id),
                rec_coords(rec),
                rec_coding(rec),
                true,
            ) {
                Some(e) => Some(Error::Model(e)),
                None => None,
            },
        }
    }
}

/// Whether `t` is the transcript lifted from the record: same sequence and
/// bounds, the record's identifiers, the strand its character denotes, and
/// the exons inferred from its coordinate lists with a stop-inclusive
/// coding coordinate.
pub open spec fn transcript_matches_record(t: Transcript, rec: RefFlatRecord) -> bool {
    &&& t.seq_name@ == rec.seq_name@
    &&& t.interval == Interval { start: rec.trx_start, end: rec.trx_end }
    &&& crate::strand::strand_of_char(rec.strand_char) == Some(t.strand)
    &&& t.id == Some(rec.transcript_id)
    &&& t.gene_id == Some(rec.gene_id)
    &&& crate::attributes::attrs_entries(t.attributes) == crate::attributes::attrs_empty()
    &&& crate::infer::infer_ok(
        t.exons@,
        rec.seq_name@,
        t.strand,
        Some(rec.transcript_id),
        Some(rec.gene_id),
        None,
        rec_coords(rec),
        rec_coding(rec),
        true,
    )
}

/// Lifts a record into a transcript, with a stop-inclusive coding
/// coordinate.
pub fn record_to_transcript(rec: &RefFlatRecord) -> (r: Result<Transcript, Error>)
    requires
        rec.exon_starts@.len() == rec.exon_ends@.len(),
    ensures
        transcript_build_error(*rec) matches Some(e) ==> r == Err::<Transcript, Error>(e),
        transcript_build_error(*rec) is None ==> (r matches Ok(t) && transcript_matches_record(
            t,
            *rec,
        )),
{
    let n = rec.exon_starts.len();
    let mut coords: Vec<Coord> = Vec::new();
    let mut i: usize = 0;
    while i < n
        invariant
            i <= n,
            n == rec.exon_starts@.len(),
            n == rec.exon_ends@.len(),
            coords@ == rec_coords(*rec).take(i as int),
        decreases n - i,
    {
        coords.push((rec.exon_starts[i], rec.exon_ends[i]));
        proof {
            assert(rec_coords(*rec).take(i + 1) =~= rec_coords(*rec).take(i as int).push(
                rec_coords(*rec)[i as int],
            ));
        }
        i = i + 1;
    }
    proof {
        assert(rec_coords(*rec).take(n as int) =~= rec_coords(*rec));
    }
    let coding = if rec.coding_start == rec.trx_end && rec.coding_end == rec.trx_end {
        None
    } else {
        Some((rec.coding_start, rec.coding_end))
    };
    let b = TBuilder::new(rec.seq_name.as_str(), rec.trx_start, rec.trx_end).strand_char(
        rec.strand_char,
    ).id(rec.transcript_id.clone()).gene_id(rec.gene_id.clone()).coords(
        coords,
        coding,
    ).coding_incl_stop(true);
    b.build()
}

/// Reader over an in-memory refFlat text, from which record, transcript,
/// and gene streams are drawn.
#[derive(Debug)]
pub struct RefFlatReader {
    /// The characters of the input.
    pub chars: Vec<char>,
}

/// A lazy pull stream of refFlat records, one row each.
pub struct RefFlatRecordsStream<'a> {
    /// The characters of the input.
    pub chars: &'a Vec<char>,
    /// The position of the next unread line.
    pub pos: usize,
}

/// A lazy pull stream of transcripts, one row each.
pub struct RefFlatTranscriptsStream<'a> {
    /// The characters of the input.
    pub chars: &'a Vec<char>,
    /// The position of the next unread line.
    pub pos: usize,
}

/// A lazy pull stream of genes, one contiguous group of rows sharing a
/// gene identifier each.
pub struct RefFlatGenesStream<'a> {
    /// The characters of the input.
    pub chars: &'a Vec<char>,
    /// The position of the next unread line.
    pub pos: usize,
}

impl RefFlatReader {
    /// Creates a reader over the given refFlat text.
    pub fn from_string(s: &str) -> (r: RefFlatReader)
        ensures
            r.chars@ == s@,
    {
        RefFlatReader { chars: to_chars(s) }
    }

    /// Returns a stream over the reader's records.
    pub fn records_stream(&self) -> (r: RefFlatRecordsStream<'_>)
        ensures
            r.chars@ == self.chars@,
            r.pos == 0,
    {
        RefFlatRecordsStream { chars: &self.chars, pos: 0 }
    }

    /// Returns a stream over the reader's transcripts.
    pub fn transcripts_stream(&self) -> (r: RefFlatTranscriptsStream<'_>)
        ensures
            r.chars@ == self.chars@,
            r.pos == 0,
    {
        RefFlatTranscriptsStream { chars: &self.chars, pos: 0 }
    }

    /// Returns a stream over the reader's genes.
    pub fn genes_stream(&self) -> (r: RefFlatGenesStream<'_>)
        ensures
            r.chars@ == self.chars@,
            r.pos == 0,
    {
        RefFlatGenesStream { chars: &self.chars, pos: 0 }
    }
}

/// Reads the bounds of the line starting at `pos` and the position after it.
fn take_line(chars: &Vec<char>, pos: usize) -> (r: (usize, usize))
    requires
        pos <= chars@.len(),
    ensures
        r.0 == line_end(chars@, pos as int),
        r.1 == next_pos_after(chars@, pos as int),
        pos <= r.0 <= r.1 <= chars@.len(),
{
    let n = chars.len();
    proof {
        assert(chars@.subrange(pos as int, n as int) =~= chars@.skip(pos as int));
    }
    match find_sep(chars, pos, n, '\n') {
        Some(j) => (j, j + 1),
        None => {
            proof {
                lemma_find_idx_bounds(chars@.skip(pos as int), '\n');
            }
            (n, n)
        },
    }
}

impl<'a> RefFlatRecordsStream<'a> {
    /// Reads the next record; `None` at the end of the input. A malformed
    /// row yields an error and is skipped.
    #[verifier::loop_isolation(false)]
    pub fn next(&mut self) -> (r: Option<Result<RefFlatRecord, Error>>)
        ensures
            final(self).chars == old(self).chars,
            old(self).pos >= old(self).chars@.len() ==> r is None && final(self).pos == old(
                self,
            ).pos,
            old(self).pos < old(self).chars@.len() ==> {
                let line = old(self).chars@.subrange(
                    old(self).pos as int,
                    line_end(old(self).chars@, old(self).pos as int),
                );
                &&& final(self).pos == next_pos_after(old(self).chars@, old(self).pos as int)
                &&& (r matches Some(Ok(rec)) ==> spec_line_ok(line) && record_matches_line(
                    rec,
                    line,
                ))
                &&& (r matches Some(Err(e)) ==> !spec_line_ok(line) && e matches Error::RefFlat(_))
                &&& r is Some
            },
    {
        let n = self.chars.len();
        if self.pos >= n {
            return None;
        }
        let (le, np) = take_line(self.chars, self.pos);
        let res = parse_line(self.chars, self.pos, le);
        self.pos = np;
        Some(res)
    }
}

impl<'a> RefFlatTranscriptsStream<'a> {
    /// Reads the next transcript; `None` at the end of the input. A
    /// malformed row or a failing build yields an error, and the row is
    /// skipped.
    #[verifier::loop_isolation(false)]
    pub fn next(&mut self) -> (r: Option<Result<Transcript, Error>>)
        ensures
            final(self).chars == old(self).chars,
            old(self).pos >= old(self).chars@.len() ==> r is None && final(self).pos == old(
                self,
            ).pos,
            old(self).pos < old(self).chars@.len() ==> {
                let line = old(self).chars@.subrange(
                    old(self).pos as int,
                    line_end(old(self).chars@, old(self).pos as int),
                );
                &&& final(self).pos == next_pos_after(old(self).chars@, old(self).pos as int)
                &&& (r matches Some(Ok(t)) ==> exists|rec: RefFlatRecord|
                    spec_line_ok(line) && #[trigger] record_matches_line(rec, line)
                        && transcript_matches_record(t, rec))
                &&& (r matches Some(Err(e)) ==> (!spec_line_ok(line) && e matches Error::RefFlat(
                    _,
                )) || (exists|rec: RefFlatRecord|
                    #[trigger] record_matches_line(rec, line) && transcript_build_error(rec)
                        == Some(e)))
                &&& r is Some
            },
    {
        let n = self.chars.len();
        if self.pos >= n {
            return None;
        }
        let (le, np) = take_line(self.chars, self.pos);
        let res = parse_line(self.chars, self.pos, le);
        self.pos = np;
        match res {
            Ok(rec) => {
                match record_to_transcript(&rec) {
                    Ok(t) => Some(Ok(t)),
                    Err(e) => Some(Err(e)),
                }
            },
            Err(e) => Some(Err(e)),
        }
    }
}

/// Whether the records are the parses of the consecutive lines from `pos`
/// up to `endpos`.
pub open spec fn group_lines(
    chars: Seq<char>,
    pos: int,
    endpos: int,
    group: Seq<RefFlatRecord>,
) -> bool
    decreases group.len(),
{
    if group.len() == 0 {
        pos == endpos
    } else {
        &&& 0 <= pos < chars.len()
        &&& spec_line_ok(chars.subrange(pos, line_end(chars, pos)))
        &&& record_matches_line(group[0], chars.subrange(pos, line_end(chars, pos)))
        &&& group_lines(chars, next_pos_after(chars, pos), endpos, group.drop_first())
    }
}

/// The smallest transcript start among the records.
pub open spec fn group_min_start(group: Seq<RefFlatRecord>) -> u64
    decreases group.len(),
{
    if group.len() <= 1 {
        group[0].trx_start
    } else {
        let rest = group_min_start(group.drop_first());
        if group[0].trx_start <= rest {
            group[0].trx_start
        } else {
            rest
        }
    }
}

/// The largest transcript end among the records.
pub open spec fn group_max_end(group: Seq<RefFlatRecord>) -> u64
    decreases group.len(),
{
    if group.len() <= 1 {
        group[0].trx_end
    } else {
        let rest = group_max_end(group.drop_first());
        if group[0].trx_end >= rest {
            group[0].trx_end
        } else {
            rest
        }
    }
}

/// Where a gene group must stop: at the end of the input, at a malformed
/// row, or at a row that carries a different gene identifier.
pub open spec fn group_break_at(chars: Seq<char>, pos: int, gid: Seq<char>) -> bool {
    ||| pos >= chars.len()
    ||| !spec_line_ok(chars.subrange(pos, line_end(chars, pos)))
    ||| split_by(chars.subrange(pos, line_end(chars, pos)), '\t')[0] != gid
}

/// The first error that lifting the group's records to transcripts raises,
/// in row order, if any.
pub open spec fn first_group_build_error(group: Seq<RefFlatRecord>) -> Option<Error>
    decreases group.len(),
{
    if group.len() == 0 {
        None
    } else {
        match transcript_build_error(group[0]) {
            Some(e) => Some(e),
            None => first_group_build_error(group.drop_first()),
        }
    }
}

/// Records that all build cleanly move the search for the first build
/// error wholly past them.
proof fn lemma_first_group_build_error_from(group: Seq<RefFlatRecord>, i: int)
    requires
        0 <= i <= group.len(),
        forall|k: int| 0 <= k < i ==> transcript_build_error(#[trigger] group[k]) is None,
    ensures
        first_group_build_error(group) == first_group_build_error(group.skip(i)),
    decreases i,
{
    if i > 0 {
        lemma_first_group_build_error_from(group.drop_first(), i - 1);
        assert(group.drop_first().skip(i - 1) =~= group.skip(i));
    } else {
        assert(group.skip(0) =~= group);
    }
}

/// What reading one gene from position `pos0` guarantees, leaving the
/// stream at `pos1`: a malformed first row is consumed alone and reported
/// as a format error; otherwise the longest run of consecutive well-formed
/// rows sharing the first row's gene identifier is consumed, and the result
/// is the first transcript-build error of that run, or the assembled gene
/// when every row builds.
pub open spec fn genes_next_post(
    chars: Seq<char>,
    pos0: int,
    pos1: int,
    r: Option<Result<Gene, Error>>,
) -> bool {
    let line0 = chars.subrange(pos0, line_end(chars, pos0));
    &&& r is Some
    &&& pos0 < pos1 <= chars.len()
    &&& (!spec_line_ok(line0) ==> pos1 == next_pos_after(chars, pos0) && (match r {
        Some(Err(e)) => e matches Error::RefFlat(_),
        _ => false,
    }))
    &&& (spec_line_ok(line0) ==> exists|group: Seq<RefFlatRecord>|
        #[trigger] group_lines(chars, pos0, pos1, group) && genes_group_post(
            chars,
            pos1,
            group,
            r,
        ))
}

/// The group-level part of reading one gene: the consumed rows share the
/// first row's gene identifier, the run stops only where it must, and the
/// result is decided by the group's first build error.
pub open spec fn genes_group_post(
    chars: Seq<char>,
    pos1: int,
    group: Seq<RefFlatRecord>,
    r: Option<Result<Gene, Error>>,
) -> bool {
    &&& group.len() >= 1
    &&& (forall|k: int|
        0 <= k < group.len() ==> (#[trigger] group[k]).gene_id@ == group[0].gene_id@)
    &&& group_break_at(chars, pos1, group[0].gene_id@)
    &&& match first_group_build_error(group) {
        Some(e) => r == Some(Err::<Gene, Error>(e)),
        None => match r {
            Some(Ok(g)) => gene_matches_group(g, group),
            _ => false,
        },
    }
}

/// Whether `g` is the gene assembled from a contiguous group of records
/// sharing a gene identifier: it carries the first record's gene identifier
/// and sequence name, the strand of the first record's strand character,
/// the span from the smallest transcript start to the largest transcript
/// end, and one transcript per record, in order.
pub open spec fn gene_matches_group(g: Gene, group: Seq<RefFlatRecord>) -> bool {
    &&& g.seq_name@ == group[0].seq_name@
    &&& g.id == Some(group[0].gene_id)
    &&& crate::strand::strand_of_char(group[0].strand_char) == Some(g.strand)
    &&& g.interval == Interval { start: group_min_start(group), end: group_max_end(group) }
    &&& crate::attributes::attrs_entries(g.attributes) == crate::attributes::attrs_empty()
    &&& g.transcripts@.len() == group.len()
    &&& forall|k: int|
        0 <= k < group.len() ==> (#[trigger] g.transcripts@[k]).0 == group[k].transcript_id
            && transcript_matches_record(g.transcripts@[k].1, group[k])
}

impl<'a> RefFlatGenesStream<'a> {
    /// Reads the next gene: the longest run of consecutive well-formed rows
    /// sharing the first row's gene identifier, each lifted to a transcript.
    /// `None` at the end of the input. A malformed first row yields an
    /// error and is skipped; a row on which a transcript build fails yields
    /// that error after the group's rows are consumed.
    #[verifier::loop_isolation(false)]
    pub fn next(&mut self) -> (r: Option<Result<Gene, Error>>)
        ensures
            final(self).chars == old(self).chars,
            old(self).pos >= old(self).chars@.len() ==> r is None && final(self).pos == old(
                self,
            ).pos,
            old(self).pos < old(self).chars@.len() ==> genes_next_post(
                old(self).chars@,
                old(self).pos as int,
                final(self).pos as int,
                r,
            ),
    {
        let n = self.chars.len();
        if self.pos >= n {
            return None;
        }
        let ghost chars0 = self.chars@;
        let ghost pos0 = self.pos as int;
        let (le, np) = take_line(self.chars, self.pos);
        let first = match parse_line(self.chars, self.pos, le) {
            Ok(rec) => rec,
            Err(e) => {
                self.pos = np;
                return Some(Err(e));
            },
        };
        self.pos = np;
        let mut group: Vec<RefFlatRecord> = Vec::new();
        group.push(first);
        proof {
            assert(group@.drop_first() =~= Seq::<RefFlatRecord>::empty());
            assert(group@[0] == first);
            assert(group@.len() == 1);
            assert(spec_line_ok(chars0.subrange(pos0, line_end(chars0, pos0))));
            assert(record_matches_line(first, chars0.subrange(pos0, line_end(chars0, pos0))));
            assert(self.pos == next_pos_after(chars0, pos0));
            assert(group_lines(
                chars0,
                next_pos_after(chars0, pos0),
                self.pos as int,
                group@.drop_first(),
            ));
            assert(group_lines(chars0, pos0, self.pos as int, group@));
        }
        #[verifier::loop_isolation(true)]
        while self.pos < n
            invariant
                self.chars == old(self).chars,
                self.chars@ == chars0,
                n == self.chars@.len(),
                self.pos <= n,
                pos0 < self.pos,
                group@.len() >= 1,
                group_lines(chars0, pos0, self.pos as int, group@),
                forall|k: int|
                    0 <= k < group@.len() ==> (#[trigger] group@[k]).gene_id@
                        == group@[0].gene_id@,
                forall|k: int|
                    0 <= k < group@.len() ==> (#[trigger] group@[k]).exon_starts@.len()
                        == group@[k].exon_ends@.len(),
            ensures
                group_break_at(chars0, self.pos as int, group@[0].gene_id@),
            decreases n - self.pos,
        {
            let (le2, np2) = take_line(self.chars, self.pos);
            let ghost line2 = chars0.subrange(self.pos as int, line_end(chars0, self.pos as int));
            match parse_line(self.chars, self.pos, le2) {
                Ok(rec) => {
                    if !string_eq(&rec.gene_id, &group[0].gene_id) {
                        proof {
                            assert(rec.gene_id@ == split_by(line2, '\t')[0]);
                        }
                        break ;
                    }
                    let ghost oldgroup = group@;
                    let ghost oldpos = self.pos as int;
                    group.push(rec);
                    self.pos = np2;
                    proof {
                        lemma_group_lines_snoc(
                            chars0,
                            pos0,
                            oldpos,
                            oldgroup,
                            rec,
                            self.pos as int,
                        );
                        assert(group@[0] == oldgroup[0]);
                    }
                },
                Err(_) => {
                    break ;
                },
            }
        }
        let mut trxs: Vec<(String, Transcript)> = Vec::new();
        let m = group.len();
        let mut i: usize = 0;
        let gmin = group_min_start_exec(&group);
        let gmax = group_max_end_exec(&group);
        while i < m
            invariant
                i <= m,
                m == group@.len(),
                forall|k: int|
                    0 <= k < group@.len() ==> (#[trigger] group@[k]).exon_starts@.len()
                        == group@[k].exon_ends@.len(),
                trxs@.len() == i,
                forall|k: int|
                    0 <= k < i ==> transcript_build_error(#[trigger] group@[k]) is None,
                forall|k: int|
                    0 <= k < i ==> (#[trigger] trxs@[k]).0 == group@[k].transcript_id
                        && transcript_matches_record(trxs@[k].1, group@[k]),
            decreases m - i,
        {
            let tid = group[i].transcript_id.clone();
            match record_to_transcript(&group[i]) {
                Ok(t) => {
                    trxs.push((tid, t));
                },
                Err(e) => {
                    proof {
                        lemma_first_group_build_error_from(group@, i as int);
                        assert(group@.skip(i as int)[0] == group@[i as int]);
                        assert(first_group_build_error(group@) == Some(e));
                    }
                    return Some(Err(e));
                },
            }
            i = i + 1;
        }
        proof {
            lemma_first_group_build_error_from(group@, m as int);
            assert(group@.skip(m as int) =~= Seq::<RefFlatRecord>::empty());
            assert(first_group_build_error(group@) is None);
            assert(transcript_build_error(group@[0]) is None);
        }
        let g = Gene {
            seq_name: group[0].seq_name.clone(),
            interval: Interval { start: gmin, end: gmax },
            strand: match Strand::from_char(group[0].strand_char) {
                Ok(st) => st,
                Err(_) => {
                    proof {
                        assert(false);
                    }
                    Strand::Unknown
                },
            },
            id: Some(group[0].gene_id.clone()),
            attributes: crate::attributes::attrs_new(),
            transcripts: trxs,
        };
        Some(Ok(g))
    }
}

/// Appending a record whose line follows the group keeps the group's lines
/// consecutive.
proof fn lemma_group_lines_snoc(
    chars: Seq<char>,
    pos: int,
    mid: int,
    group: Seq<RefFlatRecord>,
    rec: RefFlatRecord,
    endpos: int,
)
    requires
        group_lines(chars, pos, mid, group),
        0 <= mid < chars.len(),
        spec_line_ok(chars.subrange(mid, line_end(chars, mid))),
        record_matches_line(rec, chars.subrange(mid, line_end(chars, mid))),
        endpos == next_pos_after(chars, mid),
    ensures
        group_lines(chars, pos, endpos, group.push(rec)),
    decreases group.len(),
{
    if group.len() == 0 {
        assert(pos == mid);
        assert(group.push(rec)[0] == rec);
        assert(group.push(rec).drop_first() =~= Seq::<RefFlatRecord>::empty());
        assert(group_lines(chars, next_pos_after(chars, pos), endpos, group.push(rec).drop_first()));
        assert(group_lines(chars, pos, endpos, group.push(rec)));
    } else {
        lemma_group_lines_snoc(
            chars,
            next_pos_after(chars, pos),
            mid,
            group.drop_first(),
            rec,
            endpos,
        );
        assert(group.push(rec).drop_first() =~= group.drop_first().push(rec));
        assert(group_lines(chars, next_pos_after(chars, pos), endpos, group.push(rec).drop_first()));
        assert(group.push(rec)[0] == group[0]);
        assert(0 <= pos < chars.len());
        assert(spec_line_ok(chars.subrange(pos, line_end(chars, pos))));
        assert(record_matches_line(group.push(rec)[0], chars.subrange(pos, line_end(chars, pos))));
        assert(group_lines(chars, pos, endpos, group.push(rec)));
    }
}

/// Compares two strings character-wise.
fn string_eq(a: &String, b: &String) -> (r: bool)
    ensures
        r == (a@ == b@),
{
    *a == *b
}

/// The smallest transcript start among the records.
fn group_min_start_exec(group: &Vec<RefFlatRecord>) -> (r: u64)
    requires
        group@.len() >= 1,
    ensures
        r == group_min_start(group@),
{
    let mut i: usize = group.len() - 1;
    let mut best = group[i].trx_start;
    proof {
        assert(group@.skip(i as int).len() == 1);
    }
    while i > 0
        invariant
            i < group@.len(),
            best == group_min_start(group@.skip(i as int)),
        decreases i,
    {
        i = i - 1;
        proof {
            assert(group@.skip(i as int).drop_first() =~= group@.skip(i + 1));
            assert(group@.skip(i as int)[0] == group@[i as int]);
        }
        if group[i].trx_start < best {
            best = group[i].trx_start;
        }
    }
    proof {
        assert(group@.skip(0) =~= group@);
    }
    best
}

/// The largest transcript end among the records.
fn group_max_end_exec(group: &Vec<RefFlatRecord>) -> (r: u64)
    requires
        group@.len() >= 1,
    ensures
        r == group_max_end(group@),
{
    let mut i: usize = group.len() - 1;
    let mut best = group[i].trx_end;
    proof {
        assert(group@.skip(i as int).len() == 1);
    }
    while i > 0
        invariant
            i < group@.len(),
            best == group_max_end(group@.skip(i as int)),
        decreases i,
    {
        i = i - 1;
        proof {
            assert(group@.skip(i as int).drop_first() =~= group@.skip(i + 1));
            assert(group@.skip(i as int)[0] == group@[i as int]);
        }
        if group[i].trx_end > best {
            best = group[i].trx_end;
        }
    }
    proof {
        assert(group@.skip(0) =~= group@);
    }
    best
}

} // verus!
