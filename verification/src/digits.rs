//! Decimal text for the progress watermark.
//!
//! The coordination store persists the progress watermark as an opaque
//! string-valued annotation on the lease record.  This module holds the
//! verified conversion between that text and the unsigned integer the
//! orchestrator works with: a parser that accepts exactly the non-empty
//! all-digit strings whose value fits in `u64`, and a formatter whose
//! output the parser provably takes back to the same value.

use vstd::prelude::*;
use vstd::string::StrSliceExecFns;
use vstd::string::StringExecFns;

verus! {

/// A decimal digit character.
pub open spec fn is_digit_char(c: char) -> bool {
    48 <= c as int <= 57
}

/// The numeric value of a decimal digit character.
pub open spec fn digit_val(c: char) -> nat {
    (c as int - 48) as nat
}

/// The digit character for a value below ten.
pub open spec fn digit_char(d: nat) -> char {
    if d == 0 {
        '0'
    } else if d == 1 {
        '1'
    } else if d == 2 {
        '2'
    } else if d == 3 {
        '3'
    } else if d == 4 {
        '4'
    } else if d == 5 {
        '5'
    } else if d == 6 {
        '6'
    } else if d == 7 {
        '7'
    } else if d == 8 {
        '8'
    } else {
        '9'
    }
}

/// A non-empty string of decimal digit characters.
pub open spec fn is_dec_digits(s: Seq<char>) -> bool {
    &&& s.len() >= 1
    &&& forall|i: int| 0 <= i < s.len() ==> is_digit_char(#[trigger] s[i])
}

/// The value denoted by a string of decimal digit characters.
pub open spec fn dec_val(s: Seq<char>) -> nat
    decreases s.len(),
{
    if s.len() == 0 {
        0
    } else {
        dec_val(s.drop_last()) * 10 + digit_val(s.last())
    }
}

/// The canonical decimal text of a number: no leading zero except for zero
/// itself.
pub open spec fn dec_str(n: nat) -> Seq<char>
    decreases n,
{
    if n < 10 {
        seq![digit_char(n)]
    } else {
        dec_str(n / 10).push(digit_char(n % 10))
    }
}

/// Appending one digit multiplies the value by ten and adds the digit.
proof fn lemma_dec_val_push(s: Seq<char>, c: char)
    ensures
        dec_val(s.push(c)) == dec_val(s) * 10 + digit_val(c),
{
    assert(s.push(c).drop_last() =~= s);
    assert(s.push(c).last() == c);
}

/// The value of a digit string never drops when the string is extended:
/// every prefix denotes at most the value of the whole.
proof fn lemma_dec_val_prefix_le(s: Seq<char>, i: int, j: int)
    requires
        0 <= i <= j <= s.len(),
    ensures
        dec_val(s.subrange(0, i)) <= dec_val(s.subrange(0, j)),
    decreases j - i,
{
    if i < j {
        lemma_dec_val_prefix_le(s, i, j - 1);
        assert(s.subrange(0, j).drop_last() =~= s.subrange(0, j - 1));
        assert(dec_val(s.subrange(0, j)) == dec_val(s.subrange(0, j - 1)) * 10 + digit_val(
            s.subrange(0, j).last(),
        ));
    }
}

/// The canonical decimal text is made of digits and denotes the number it
/// was made from.
pub proof fn lemma_dec_str_val(n: nat)
    ensures
        is_dec_digits(dec_str(n)),
        dec_val(dec_str(n)) == n,
    decreases n,
{
    if n < 10 {
        let s = seq![digit_char(n)];
        assert(s.drop_last() =~= Seq::<char>::empty());
        assert(dec_val(Seq::<char>::empty()) == 0);
        assert(dec_val(s) == digit_val(digit_char(n)));
        assert(digit_val(digit_char(n)) == n);
    } else {
        lemma_dec_str_val(n / 10);
        lemma_dec_val_push(dec_str(n / 10), digit_char(n % 10));
    }
}

/// Parse a decimal string.  Returns the denoted value exactly when the
/// string is non-empty, consists of digit characters only, and its value
/// fits in `u64`; returns nothing otherwise.
pub fn parse_u64(s: &str) -> (r: Option<u64>)
    ensures
        match r {
            Some(v) => is_dec_digits(s@) && v == dec_val(s@),
            None => !(is_dec_digits(s@) && dec_val(s@) <= u64::MAX),
        },
{
    let n = s.unicode_len();
    if n == 0 {
        return None;
    }
    let mut acc: u64 = 0;
    let mut i: usize = 0;
    while i < n
        invariant
            0 <= i <= n,
            n == s@.len(),
            forall|k: int| 0 <= k < i ==> is_digit_char(#[trigger] s@[k]),
            acc == dec_val(s@.subrange(0, i as int)),
        decreases n - i,
    {
        let c = s.get_char(i);
        let u = c as u32;
        if u < 48 || u > 57 {
            assert(!is_digit_char(s@[i as int]));
            return None;
        }
        let d = (u - 48) as u64;
        assert(is_digit_char(s@[i as int]) && d == digit_val(s@[i as int]));
        proof {
            lemma_dec_val_push(s@.subrange(0, i as int), s@[i as int]);
            assert(s@.subrange(0, i as int).push(s@[i as int]) =~= s@.subrange(0, i + 1));
        }
        if acc > (u64::MAX - d) / 10 {
            proof {
                let q = ((u64::MAX - d) / 10) as int;
                assert((u64::MAX - d) as int == 10 * q + (u64::MAX - d) as int % 10);
                assert(acc * 10 + d > u64::MAX) by (nonlinear_arith)
                    requires
                        acc as int > q,
                        (u64::MAX - d) as int == 10 * q + (u64::MAX - d) as int % 10,
                        0 <= (u64::MAX - d) as int % 10 < 10,
                        0 <= d < 10,
                ;
                lemma_dec_val_prefix_le(s@, i + 1, n as int);
                assert(s@.subrange(0, n as int) =~= s@);
            }
            return None;
        }
        proof {
            let q = ((u64::MAX - d) / 10) as int;
            assert((u64::MAX - d) as int == 10 * q + (u64::MAX - d) as int % 10);
            assert(acc * 10 + d <= u64::MAX) by (nonlinear_arith)
                requires
                    acc as int <= q,
                    (u64::MAX - d) as int == 10 * q + (u64::MAX - d) as int % 10,
                    0 <= d < 10,
            ;
        }
        acc = acc * 10 + d;
        i = i + 1;
    }
    proof {
        assert(s@.subrange(0, n as int) =~= s@);
    }
    Some(acc)
}

/// Append one digit character to a string.
fn push_digit(s: &mut String, d: u64)
    requires
        d < 10,
    ensures
        final(s)@ == old(s)@ + seq![digit_char(d as nat)],
{
    proof {
        reveal_strlit("0");
        reveal_strlit("1");
        reveal_strlit("2");
        reveal_strlit("3");
        reveal_strlit("4");
        reveal_strlit("5");
        reveal_strlit("6");
        reveal_strlit("7");
        reveal_strlit("8");
        reveal_strlit("9");
    }
    if d == 0 {
        s.append("0");
        assert(final(s)@ =~= old(s)@ + seq![digit_char(d as nat)]);
    } else if d == 1 {
        s.append("1");
        assert(final(s)@ =~= old(s)@ + seq![digit_char(d as nat)]);
    } else if d == 2 {
        s.append("2");
        assert(final(s)@ =~= old(s)@ + seq![digit_char(d as nat)]);
    } else if d == 3 {
        s.append("3");
        assert(final(s)@ =~= old(s)@ + seq![digit_char(d as nat)]);
    } else if d == 4 {
        s.append("4");
        assert(final(s)@ =~= old(s)@ + seq![digit_char(d as nat)]);
    } else if d == 5 {
        s.append("5");
        assert(final(s)@ =~= old(s)@ + seq![digit_char(d as nat)]);
    } else if d == 6 {
        s.append("6");
        assert(final(s)@ =~= old(s)@ + seq![digit_char(d as nat)]);
    } else if d == 7 {
        s.append("7");
        assert(final(s)@ =~= old(s)@ + seq![digit_char(d as nat)]);
    } else if d == 8 {
        s.append("8");
        assert(final(s)@ =~= old(s)@ + seq![digit_char(d as nat)]);
    } else {
        s.append("9");
        assert(final(s)@ =~= old(s)@ + seq![digit_char(d as nat)]);
    }
}

/// The digit characters of `ds`, least significant first, read back most
/// significant first.
spec fn chars_of_rev(ds: Seq<u64>) -> Seq<char> {
    Seq::new(ds.len(), |i: int| digit_char(ds[ds.len() - 1 - i] as nat))
}

/// Format a number as its canonical decimal text.
pub fn format_u64(n: u64) -> (r: String)
    ensures
        r@ == dec_str(n as nat),
        is_dec_digits(r@),
        dec_val(r@) == n,
{
    proof {
        lemma_dec_str_val(n as nat);
    }
    if n == 0 {
        let mut out = String::new();
        push_digit(&mut out, 0);
        assert(out@ =~= dec_str(n as nat));
        return out;
    }
    let mut digs: Vec<u64> = Vec::new();
    let mut m = n;
    while m > 0
        invariant
            forall|k: int| 0 <= k < digs.len() ==> #[trigger] digs@[k] < 10,
            (if m == 0 {
                chars_of_rev(digs@) =~= dec_str(n as nat)
            } else {
                dec_str(m as nat) + chars_of_rev(digs@) =~= dec_str(n as nat)
            }),
        decreases m,
    {
        let ghost pre = digs@;
        let d = m % 10;
        digs.push(d);
        proof {
            assert(chars_of_rev(pre.push(d)) =~= seq![digit_char(d as nat)] + chars_of_rev(pre));
        }
        if m < 10 {
            proof {
                assert(dec_str(m as nat) =~= seq![digit_char(d as nat)]);
            }
            m = 0;
        } else {
            proof {
                assert(dec_str(m as nat) =~= dec_str((m / 10) as nat) + seq![
                    digit_char((m % 10) as nat),
                ]);
            }
            m = m / 10;
        }
    }
    let mut out = String::new();
    let mut i = digs.len();
    while i > 0
        invariant
            i <= digs.len(),
            forall|k: int| 0 <= k < digs.len() ==> #[trigger] digs@[k] < 10,
            out@ =~= chars_of_rev(digs@).subrange(0, digs.len() - i),
        decreases i,
    {
        i = i - 1;
        let d = digs[i];
        push_digit(&mut out, d);
        proof {
            let len = digs.len() as int;
            assert(chars_of_rev(digs@)[len - 1 - i] == digit_char(d as nat));
            assert(chars_of_rev(digs@).subrange(0, len - i) =~= chars_of_rev(digs@).subrange(
                0,
                len - 1 - i,
            ).push(digit_char(d as nat)));
        }
    }
    proof {
        assert(chars_of_rev(digs@).subrange(0, digs.len() as int) =~= chars_of_rev(digs@));
    }
    out
}

} // verus!
