//! Decimal rendering and parsing of coordinates, over character sequences.

use vstd::prelude::*;

verus! {

/// The character of a single decimal digit.
pub open spec fn digit_char(d: int) -> char {
    if d == 0 {
        '0'
    } else if d == 1 {
        '1'
    } else if d == 2 {
        '2'
    } else if d == 3 {
        '3'
    } else if d == 4 {
        '4'
    } else if d == 5 {
        '5'
    } else if d == 6 {
        '6'
    } else if d == 7 {
        '7'
    } else if d == 8 {
        '8'
    } else {
        '9'
    }
}

/// The canonical decimal rendering of `n`: no sign, no leading zeros.
pub open spec fn u64_dec(n: nat) -> Seq<char>
    decreases n,
{
    if n < 10 {
        seq![digit_char(n as int)]
    } else {
        u64_dec(n / 10).push(digit_char((n % 10) as int))
    }
}

/// Whether `c` is a decimal digit.
pub open spec fn is_digit_char(c: char) -> bool {
    48 <= c as u32 <= 57
}

/// The value of the digit `c`.
pub open spec fn digit_val(c: char) -> int {
    c as u32 - 48
}

/// Whether every character of `s` is a decimal digit.
pub open spec fn all_digits(s: Seq<char>) -> bool {
    forall|i: int| 0 <= i < s.len() ==> is_digit_char(#[trigger] s[i])
}

/// The value of the digit string `s`.
pub open spec fn digits_val(s: Seq<char>) -> int
    decreases s.len(),
{
    if s.len() == 0 {
        0
    } else {
        digits_val(s.drop_last()) * 10 + digit_val(s.last())
    }
}

/// A digit string's value is non-negative.
pub proof fn lemma_digits_val_nonneg(s: Seq<char>)
    requires
        all_digits(s),
    ensures
        digits_val(s) >= 0,
    decreases s.len(),
{
    if s.len() > 0 {
        lemma_digits_val_nonneg(s.drop_last());
    }
}

/// A digit string is worth at least any of its prefixes.
pub proof fn lemma_digits_val_prefix_le(s: Seq<char>, i: int)
    requires
        all_digits(s),
        0 <= i <= s.len(),
    ensures
        digits_val(s.take(i)) <= digits_val(s),
    decreases s.len(),
{
    if i < s.len() {
        assert(all_digits(s.drop_last()));
        assert(s.drop_last().take(i) =~= s.take(i));
        lemma_digits_val_prefix_le(s.drop_last(), i);
        lemma_digits_val_nonneg(s.drop_last());
    } else {
        assert(s.take(i) =~= s);
    }
}

/// The character of a single decimal digit.
pub fn digit_to_char(d: u64) -> (r: char)
    requires
        d < 10,
    ensures
        r == digit_char(d as int),
{
    if d == 0 {
        '0'
    } else if d == 1 {
        '1'
    } else if d == 2 {
        '2'
    } else if d == 3 {
        '3'
    } else if d == 4 {
        '4'
    } else if d == 5 {
        '5'
    } else if d == 6 {
        '6'
    } else if d == 7 {
        '7'
    } else if d == 8 {
        '8'
    } else {
        '9'
    }
}

/// Renders `n` in canonical decimal form.
pub fn u64_to_chars(n: u64) -> (r: Vec<char>)
    ensures
        r@ == u64_dec(n as nat),
{
    let mut tmp: Vec<char> = Vec::new();
    let mut cur = n;
    if cur < 10 {
        let mut out: Vec<char> = Vec::new();
        out.push(digit_to_char(cur));
        proof {
            assert(out@ =~= u64_dec(n as nat));
        }
        return out;
    }
    while cur >= 10
        invariant
            u64_dec(n as nat) == u64_dec(cur as nat) + tmp@.reverse(),
        decreases cur,
    {
        let d = cur % 10;
        let ghost oldtmp = tmp@;
        let ghost oldcur = cur;
        tmp.push(digit_to_char(d));
        cur = cur / 10;
        proof {
            assert(tmp@.reverse() =~= seq![digit_char(d as int)] + oldtmp.reverse());
            assert(u64_dec(oldcur as nat) == u64_dec(cur as nat).push(digit_char(d as int)));
            assert(u64_dec(cur as nat) + tmp@.reverse() =~= (u64_dec(cur as nat).push(
                digit_char(d as int),
            )) + oldtmp.reverse());
        }
    }
    let mut out: Vec<char> = Vec::new();
    out.push(digit_to_char(cur));
    let k = tmp.len();
    let mut j: usize = 0;
    while j < k
        invariant
            j <= k,
            k == tmp@.len(),
            out@.len() == j + 1,
            out@[0] == digit_char(cur as int),
            forall|m: int| 1 <= m <= j ==> #[trigger] out@[m] == tmp@[k - m],
        decreases k - j,
    {
        out.push(tmp[k - 1 - j]);
        j = j + 1;
    }
    proof {
        assert(u64_dec(cur as nat) =~= seq![digit_char(cur as int)]);
        assert(out@ =~= u64_dec(cur as nat) + tmp@.reverse());
    }
    out
}

/// Parses the whole digit string `s` as a coordinate: `Some` exactly when
/// `s` is nonempty, all digits, and its value fits.
pub fn parse_u64(s: &Vec<char>, from: usize, to: usize) -> (r: Option<u64>)
    requires
        from <= to <= s@.len(),
    ensures
        r matches Some(v) ==> {
            let f = s@.subrange(from as int, to as int);
            f.len() > 0 && all_digits(f) && digits_val(f) == v
        },
        r is None ==> {
            let f = s@.subrange(from as int, to as int);
            f.len() == 0 || !all_digits(f) || digits_val(f) > u64::MAX
        },
{
    let ghost f = s@.subrange(from as int, to as int);
    if from == to {
        return None;
    }
    let mut val: u64 = 0;
    let mut i: usize = from;
    while i < to
        invariant
            from <= i <= to <= s@.len(),
            f == s@.subrange(from as int, to as int),
            all_digits(f.take(i - from)),
            val == digits_val(f.take(i - from)),
        decreases to - i,
    {
        let cu = s[i] as u32;
        if cu < 48 || cu > 57 {
            proof {
                assert(f[i - from] == s@[i as int]);
                assert(!is_digit_char(f[i - from]));
            }
            return None;
        }
        let d = (cu - 48) as u64;
        let ghost prev = f.take(i - from);
        proof {
            assert(f.take(i - from + 1).drop_last() =~= prev);
            assert(f.take(i - from + 1).last() == f[i - from]);
            assert(f[i - from] == s@[i as int]);
        }
        let v10 = match val.checked_mul(10) {
            Some(x) => x,
            None => {
                proof {
                    if all_digits(f) {
                        lemma_digits_val_nonneg(f.take(i - from + 1));
                        lemma_digits_val_prefix_le(f, i - from + 1);
                    }
                }
                return None;
            },
        };
        val = match v10.checked_add(d) {
            Some(x) => x,
            None => {
                proof {
                    if all_digits(f) {
                        lemma_digits_val_prefix_le(f, i - from + 1);
                    }
                }
                return None;
            },
        };
        i = i + 1;
    }
    proof {
        assert(f.take(to - from) =~= f);
    }
    Some(val)
}

/// Round trip: parsing a canonical decimal rendering gives back the value.
pub proof fn lemma_dec_parse_round_trip(n: nat)
    ensures
        all_digits(u64_dec(n)),
        u64_dec(n).len() > 0,
        digits_val(u64_dec(n)) == n,
    decreases n,
{
    if n < 10 {
        assert(u64_dec(n) =~= seq![digit_char(n as int)]);
        assert(digits_val(u64_dec(n)) == digits_val(u64_dec(n).drop_last()) * 10 + digit_val(
            u64_dec(n).last(),
        ));
        assert(u64_dec(n).drop_last() =~= Seq::<char>::empty());
    } else {
        lemma_dec_parse_round_trip(n / 10);
        assert(u64_dec(n).drop_last() =~= u64_dec(n / 10));
    }
}

} // verus!
