//! Text helpers for the value model: decimal text of integers, parsing of
//! integer literals, lexicographic comparison of texts, and splitting.

use vstd::prelude::*;
use vstd::string::{StrSliceExecFns, StringExecFns};

verus! {

/// The decimal digit character for `d` (which must be between 0 and 9).
pub open spec fn dec_digit(d: int) -> char {
    if d == 0 {
        '0'
    } else if d == 1 {
        '1'
    } else if d == 2 {
        '2'
    } else if d == 3 {
        '3'
    } else if d == 4 {
        '4'
    } else if d == 5 {
        '5'
    } else if d == 6 {
        '6'
    } else if d == 7 {
        '7'
    } else if d == 8 {
        '8'
    } else {
        '9'
    }
}

/// Decimal text of a non-negative integer, without sign or padding.
pub open spec fn nat_text(n: int) -> Seq<char>
    decreases n,
{
    if n < 10 {
        seq![dec_digit(n)]
    } else {
        nat_text(n / 10) + seq![dec_digit(n % 10)]
    }
}

/// Decimal text of an integer: a minus sign for negative values, then digits.
pub open spec fn int_text(i: int) -> Seq<char> {
    if i < 0 {
        seq!['-'] + nat_text(-i)
    } else {
        nat_text(i)
    }
}

/// The decimal digit character for `d`.
fn dec_digit_exec(d: u64) -> (c: char)
    requires
        d <= 9,
    ensures
        c == dec_digit(d as int),
{
    if d == 0 {
        '0'
    } else if d == 1 {
        '1'
    } else if d == 2 {
        '2'
    } else if d == 3 {
        '3'
    } else if d == 4 {
        '4'
    } else if d == 5 {
        '5'
    } else if d == 6 {
        '6'
    } else if d == 7 {
        '7'
    } else if d == 8 {
        '8'
    } else {
        '9'
    }
}

/// Append the decimal digits of `n` to `out`.
fn push_nat_text(n: u64, out: &mut String)
    ensures
        final(out)@ == old(out)@ + nat_text(n as int),
    decreases n,
{
    if n < 10 {
        let piece = char_to_text(dec_digit_exec(n));
        out.append(piece.as_str());
    } else {
        push_nat_text(n / 10, out);
        let piece = char_to_text(dec_digit_exec(n % 10));
        out.append(piece.as_str());
        proof {
            assert(out@ =~= old(out)@ + nat_text(n as int));
        }
    }
}

/// The decimal text of a non-negative count.
pub fn nat_to_text(n: u64) -> (r: String)
    ensures
        r@ == nat_text(n as int),
{
    let mut out = String::new();
    push_nat_text(n, &mut out);
    proof {
        assert(out@ =~= nat_text(n as int));
    }
    out
}

/// The decimal text of an integer: digits preceded by `-` when negative.
pub fn int_to_text(i: i64) -> (r: String)
    ensures
        r@ == int_text(i as int),
{
    let mut out = String::new();
    if i < 0 {
        let m = (-(i as i128)) as u64;
        out.append("-");
        push_nat_text(m, &mut out);
        proof {
            reveal_strlit("-");
            assert("-"@ =~= seq!['-']);
            assert(out@ =~= seq!['-'] + nat_text(m as int));
        }
    } else {
        push_nat_text(i as u64, &mut out);
        proof {
            assert(out@ =~= nat_text(i as int));
        }
    }
    out
}

pub open spec fn is_dec_digit(c: char) -> bool {
    48 <= c as int <= 57
}

pub open spec fn all_dec_digits(s: Seq<char>) -> bool {
    forall|i: int| 0 <= i < s.len() ==> is_dec_digit(#[trigger] s[i])
}

/// Value of a sequence of decimal digit characters.
pub open spec fn digits_val(s: Seq<char>) -> int
    decreases s.len(),
{
    if s.len() == 0 {
        0
    } else {
        digits_val(s.drop_last()) * 10 + (s.last() as int - 48)
    }
}

/// The integer denoted by `s` under the syntax of `i64::from_str`: an
/// optional `+` or `-` sign followed by at least one decimal digit, with the
/// value required to fit in a signed 64-bit integer.
pub open spec fn parse_int_spec(s: Seq<char>) -> Option<i64> {
    let signed = s.len() > 0 && (s[0] == '+' || s[0] == '-');
    let ds = if signed {
        s.drop_first()
    } else {
        s
    };
    if ds.len() == 0 || !all_dec_digits(ds) {
        None
    } else {
        let v = if s.len() > 0 && s[0] == '-' {
            -digits_val(ds)
        } else {
            digits_val(ds)
        };
        if -0x8000_0000_0000_0000 <= v <= 0x7FFF_FFFF_FFFF_FFFF {
            Some(v as i64)
        } else {
            None
        }
    }
}

proof fn lemma_digits_val_nonneg(t: Seq<char>)
    requires
        all_dec_digits(t),
    ensures
        digits_val(t) >= 0,
    decreases t.len(),
{
    if t.len() > 0 {
        assert(forall|i: int| 0 <= i < t.drop_last().len() ==> t.drop_last()[i] == t[i]);
        lemma_digits_val_nonneg(t.drop_last());
        assert(is_dec_digit(t.last()));
    }
}

proof fn lemma_digits_val_prefix_mono(t: Seq<char>, k: int)
    requires
        all_dec_digits(t),
        0 <= k <= t.len(),
    ensures
        digits_val(t) >= digits_val(t.take(k)),
    decreases t.len() - k,
{
    if k < t.len() {
        assert(forall|i: int| 0 <= i < t.drop_last().len() ==> t.drop_last()[i] == t[i]);
        if k == t.len() - 1 {
            assert(t.take(k) =~= t.drop_last());
            lemma_digits_val_nonneg(t.drop_last());
            assert(is_dec_digit(t.last()));
        } else {
            lemma_digits_val_prefix_mono(t.drop_last(), k);
            assert(t.drop_last().take(k) =~= t.take(k));
            lemma_digits_val_nonneg(t.drop_last());
            assert(is_dec_digit(t.last()));
        }
    } else {
        assert(t.take(k) =~= t);
    }
}

/// Parse an integer: an optional sign followed by decimal digits, rejecting
/// malformed or out-of-range text.
pub fn parse_int(s: &String) -> (r: Option<i64>)
    ensures
        r == parse_int_spec(s@),
{
    let n = s.as_str().unicode_len();
    if n == 0 {
        return None;
    }
    let c0 = s.as_str().get_char(0);
    let signed = c0 == '+' || c0 == '-';
    let neg = c0 == '-';
    let start: usize = if signed {
        1
    } else {
        0
    };
    let ghost ds = if signed {
        s@.drop_first()
    } else {
        s@
    };
    proof {
        assert(ds =~= s@.subrange(start as int, n as int));
    }
    if start == n {
        return None;
    }
    // The digit value may go one past `i64::MAX`, which is still in range
    // for a negative number.
    let lim: i128 = 0x8000_0000_0000_0000;
    let mut acc: i128 = 0;
    let mut i: usize = start;
    while i < n
        invariant
            start <= i <= n,
            n == s@.len(),
            n >= 1,
            c0 == s@[0],
            signed == (s@[0] == '+' || s@[0] == '-'),
            neg == (s@[0] == '-'),
            start == if signed { 1int } else { 0int },
            ds =~= s@.subrange(start as int, n as int),
            all_dec_digits(s@.subrange(start as int, i as int)),
            acc == digits_val(s@.subrange(start as int, i as int)),
            0 <= acc <= lim,
            lim == 0x8000_0000_0000_0000,
        decreases n - i,
    {
        let c = s.as_str().get_char(i);
        let code = c as u32;
        proof {
            assert(s@.subrange(start as int, i + 1).drop_last() =~= s@.subrange(
                start as int,
                i as int,
            ));
            assert(s@.subrange(start as int, i + 1).last() == s@[i as int]);
        }
        if code < 48 || code > 57 {
            proof {
                assert(ds[i - start] == s@[i as int]);
                assert(!is_dec_digit(ds[i - start]));
                assert(!all_dec_digits(ds));
            }
            return None;
        }
        let d = (code - 48) as i128;
        let next = acc * 10 + d;
        if next > lim {
            proof {
                assert(is_dec_digit(s@[i as int]));
                assert(digits_val(s@.subrange(start as int, i + 1)) == acc * 10 + (
                s@[i as int] as int - 48));
                assert(digits_val(s@.subrange(start as int, i + 1)) == next);
                if all_dec_digits(ds) {
                    lemma_digits_val_prefix_mono(ds, i + 1 - start);
                    assert(ds.take(i + 1 - start) =~= s@.subrange(start as int, i + 1));
                    assert(digits_val(ds) >= next);
                    assert(digits_val(ds) > 0x7FFF_FFFF_FFFF_FFFF);
                    assert(-digits_val(ds) < -0x8000_0000_0000_0000);
                }
                assert(s@.drop_first() =~= s@.subrange(1, n as int));
                assert(s@.subrange(0, n as int) =~= s@);
                assert(parse_int_spec(s@) is None);
            }
            return None;
        }
        acc = next;
        i = i + 1;
    }
    proof {
        assert(s@.subrange(start as int, n as int) =~= ds);
    }
    if neg {
        Some((-acc) as i64)
    } else {
        if acc > 0x7FFF_FFFF_FFFF_FFFF {
            None
        } else {
            Some(acc as i64)
        }
    }
}

/// Three-way lexicographic order on character sequences: -1, 0 or 1.
pub open spec fn seq_cmp3(a: Seq<char>, b: Seq<char>) -> int
    decreases a.len(),
{
    if a.len() == 0 && b.len() == 0 {
        0
    } else if a.len() == 0 {
        -1
    } else if b.len() == 0 {
        1
    } else if (a[0] as int) < (b[0] as int) {
        -1
    } else if (a[0] as int) > (b[0] as int) {
        1
    } else {
        seq_cmp3(a.drop_first(), b.drop_first())
    }
}

/// Three-way lexicographic comparison of two texts by code point, which for
/// well-formed text coincides with byte order.
pub fn text_cmp3(a: &String, b: &String) -> (r: i64)
    ensures
        r == seq_cmp3(a@, b@),
{
    let la = a.as_str().unicode_len();
    let lb = b.as_str().unicode_len();
    let mut i: usize = 0;
    proof {
        assert(a@.skip(0) =~= a@);
        assert(b@.skip(0) =~= b@);
    }
    while i < la && i < lb
        invariant
            i <= la,
            i <= lb,
            la == a@.len(),
            lb == b@.len(),
            seq_cmp3(a@.skip(i as int), b@.skip(i as int)) == seq_cmp3(a@, b@),
        decreases la - i,
    {
        let ca = a.as_str().get_char(i);
        let cb = b.as_str().get_char(i);
        proof {
            assert(a@.skip(i as int)[0] == a@[i as int]);
            assert(b@.skip(i as int)[0] == b@[i as int]);
            assert(a@.skip(i as int).drop_first() =~= a@.skip(i as int + 1));
            assert(b@.skip(i as int).drop_first() =~= b@.skip(i as int + 1));
        }
        if (ca as u32) < (cb as u32) {
            return -1;
        }
        if (ca as u32) > (cb as u32) {
            return 1;
        }
        i = i + 1;
    }
    proof {
        assert(a@.skip(la as int).len() == 0);
        assert(b@.skip(lb as int).len() == 0);
    }
    if i < lb {
        -1
    } else if i < la {
        1
    } else {
        0
    }
}

/// The pieces of `s` delimited by occurrences of `d`, in order, as produced
/// by splitting on the delimiter text.
pub uninterp spec fn split_parts(s: Seq<char>, d: Seq<char>) -> Seq<Seq<char>>;

/// Relies on `str::split` with a text pattern: the pieces are a function of
/// the two texts alone, and the iterator always yields at least one piece.
#[verifier::external_body]
pub(crate) fn split_text(s: &String, d: &String) -> (r: Vec<String>)
    ensures
        r@.len() == split_parts(s@, d@).len(),
        forall|i: int| 0 <= i < r@.len() ==> r@[i]@ == split_parts(s@, d@)[i],
        r@.len() >= 1,
{
    s.as_str().split(d.as_str()).map(|p| String::from(p)).collect()
}

/// Relies on `String::from(char)`: a string holding exactly that character.
#[verifier::external_body]
pub(crate) fn char_to_text(c: char) -> (r: String)
    ensures
        r@ == seq![c],
{
    String::from(c)
}

} // verus!
