//! Reading of the quality percentage: only the decimal digits of the given
//! token count, and a missing token means full quality.

use vstd::prelude::*;

verus! {

pub open spec fn is_digit(c: char) -> bool {
    48 <= c as u32 <= 57
}

pub open spec fn digit_val(c: char) -> nat {
    if is_digit(c) {
        (c as u32 - 48) as nat
    } else {
        0
    }
}

/// The subsequence of decimal digits of `s`, in order.
pub open spec fn digits_of(s: Seq<char>) -> Seq<char>
    decreases s.len(),
{
    if s.len() == 0 {
        Seq::empty()
    } else if is_digit(s.last()) {
        digits_of(s.drop_last()).push(s.last())
    } else {
        digits_of(s.drop_last())
    }
}

/// The value of a sequence of decimal digits, most significant first.
pub open spec fn dec_value(digits: Seq<char>) -> nat
    decreases digits.len(),
{
    if digits.len() == 0 {
        0
    } else {
        dec_value(digits.drop_last()) * 10 + digit_val(digits.last())
    }
}

/// The quality named by token `s`: the value of its digits, or nothing when
/// it has no digit or the value does not fit the percentage's byte.
pub open spec fn quality_value(s: Seq<char>) -> Option<nat> {
    let d = digits_of(s);
    if d.len() == 0 || dec_value(d) > 255 {
        None
    } else {
        Some(dec_value(d))
    }
}

/// The quality in force for an optional token: 100 when none was given.
pub open spec fn effective_quality(q: Option<Seq<char>>) -> Option<nat> {
    match q {
        Some(s) => quality_value(s),
        None => Some(100),
    }
}

/// A digit sequence is worth at least any of its prefixes.
proof fn lemma_dec_value_prefix(digits: Seq<char>, i: int)
    requires
        0 <= i <= digits.len(),
    ensures
        dec_value(digits.take(i)) <= dec_value(digits),
    decreases digits.len() - i,
{
    if i < digits.len() {
        lemma_dec_value_prefix(digits, i + 1);
        assert(digits.take(i + 1).drop_last() =~= digits.take(i));
        assert(dec_value(digits.take(i + 1)) == dec_value(digits.take(i)) * 10 + digit_val(
            digits.take(i + 1).last(),
        ));
    } else {
        assert(digits.take(i) =~= digits);
    }
}

/// Collects the decimal digits of `s`, in order.
fn collect_digits(s: &str) -> (r: Vec<char>)
    ensures
        r@ == digits_of(s@),
{
    let n = s.unicode_len();
    let mut digits: Vec<char> = Vec::new();
    let mut i: usize = 0;
    proof {
        assert(s@.take(0) =~= Seq::<char>::empty());
    }
    while i < n
        invariant
            i <= n,
            n == s@.len(),
            digits@ == digits_of(s@.take(i as int)),
        decreases n - i,
    {
        let c = s.get_char(i);
        let u = c as u32;
        proof {
            assert(s@.take(i + 1).drop_last() =~= s@.take(i as int));
            assert(s@.take(i + 1).last() == s@[i as int]);
        }
        if 48 <= u && u <= 57 {
            digits.push(c);
        }
        i += 1;
    }
    proof {
        assert(s@.take(n as int) =~= s@);
    }
    digits
}

/// Reads the quality percentage from the optional command-line token, as the
/// value of the token's decimal digits; a missing token means 100. Yields
/// nothing when a token was given but holds no digit, or its digits exceed
/// the percentage's byte.
pub fn parse_quality(quality: &Option<String>) -> (r: Option<u8>)
    ensures
        (*quality) is None ==> r == Some(100u8),
        (*quality) matches Some(s) ==> match quality_value(s@) {
            Some(v) => r == Some(v as u8),
            None => r is None,
        },
{
    let s = match quality {
        Some(s) => s,
        None => {
            return Some(100);
        },
    };
    let digits = collect_digits(s.as_str());
    if digits.len() == 0 {
        return None;
    }
    let ghost dseq = digits@;
    let m = digits.len();
    let mut acc: u16 = 0;
    let mut i: usize = 0;
    proof {
        assert(dseq.take(0) =~= Seq::<char>::empty());
    }
    while i < m
        invariant
            i <= m,
            m == dseq.len(),
            digits@ == dseq,
            dseq == digits_of(s@),
            (*quality) matches Some(t) && t@ == s@,
            acc <= 255,
            acc as nat == dec_value(dseq.take(i as int)),
        decreases m - i,
    {
        let c = digits[i];
        proof {
            assert(dseq.take(i + 1).drop_last() =~= dseq.take(i as int));
            assert(dseq.take(i + 1).last() == dseq[i as int]);
        }
        proof {
            assert(is_digit(dseq[i as int])) by {
                assert(dseq[i as int] == digits_of(s@)[i as int]);
                lemma_digits_are_digits(s@, i as int);
            }
        }
        let d = (c as u32 - 48) as u16;
        proof {
            assert(d as nat == digit_val(c));
        }
        let next = acc * 10 + d;
        proof {
            assert(next as nat == dec_value(dseq.take(i + 1)));
        }
        if next > 255 {
            proof {
                lemma_dec_value_prefix(dseq, i + 1);
                assert(dec_value(digits_of(s@)) > 255);
            }
            return None;
        }
        acc = next;
        i += 1;
    }
    proof {
        assert(dseq.take(m as int) =~= dseq);
    }
    Some(acc as u8)
}

/// Every element of `digits_of(s)` is a digit.
proof fn lemma_digits_are_digits(s: Seq<char>, i: int)
    requires
        0 <= i < digits_of(s).len(),
    ensures
        is_digit(digits_of(s)[i]),
    decreases s.len(),
{
    if s.len() > 0 {
        if is_digit(s.last()) {
            if i < digits_of(s.drop_last()).len() {
                lemma_digits_are_digits(s.drop_last(), i);
            }
        } else {
            lemma_digits_are_digits(s.drop_last(), i);
        }
    }
}

} // verus!
