//! Parsing an exit status: a signed decimal 32-bit integer, exactly the
//! texts `str::parse::<i32>` accepts — an optional sign, then one or more
//! decimal digits, with the value in range.

use vstd::prelude::*;
use vstd::string::*;

verus! {

/// A decimal digit.
pub open spec fn is_digit(c: char) -> bool {
    '0' <= c && c <= '9'
}

/// The value of one decimal digit.
pub open spec fn digit_val(c: char) -> int {
    c as int - '0' as int
}

/// At least one character, all of them decimal digits.
pub open spec fn all_digits(s: Seq<char>) -> bool {
    s.len() > 0 && (forall|i: int| 0 <= i < s.len() ==> is_digit(s[i]))
}

/// The value of a string of decimal digits, most significant first.
pub open spec fn digits_val(s: Seq<char>) -> int
    decreases s.len(),
{
    if s.len() == 0 {
        0
    } else {
        digits_val(s.drop_last()) * 10 + digit_val(s.last())
    }
}

/// The text with a single leading sign removed, if one is there.
pub open spec fn int_text_body(s: Seq<char>) -> Seq<char> {
    if s.len() > 0 && (s[0] == '+' || s[0] == '-') {
        s.drop_first()
    } else {
        s
    }
}

/// The signed value the text denotes.
pub open spec fn int_text_val(s: Seq<char>) -> int {
    if s.len() > 0 && s[0] == '-' {
        -digits_val(int_text_body(s))
    } else {
        digits_val(int_text_body(s))
    }
}

/// The texts accepted as a 32-bit exit status: an optional sign, then one or
/// more decimal digits, denoting a value that fits in `i32`.
pub open spec fn is_i32_text(s: Seq<char>) -> bool {
    all_digits(int_text_body(s)) && i32::MIN <= int_text_val(s) <= i32::MAX
}

/// A digit string's value is never negative.
pub proof fn lemma_digits_val_nonneg(s: Seq<char>)
    requires
        forall|i: int| 0 <= i < s.len() ==> is_digit(s[i]),
    ensures
        digits_val(s) >= 0,
    decreases s.len(),
{
    if s.len() > 0 {
        lemma_digits_val_nonneg(s.drop_last());
    }
}

/// Reading further digits never shrinks the value: the whole digit string is
/// worth at least any of its prefixes.
pub proof fn lemma_digits_val_prefix(s: Seq<char>, k: int)
    requires
        0 <= k <= s.len(),
        forall|i: int| 0 <= i < s.len() ==> is_digit(s[i]),
    ensures
        digits_val(s) >= digits_val(s.take(k)),
    decreases s.len() - k,
{
    if k == s.len() {
        assert(s.take(k) =~= s);
    } else {
        assert(s.take(k + 1).drop_last() =~= s.take(k));
        lemma_digits_val_nonneg(s.take(k));
        lemma_digits_val_prefix(s, k + 1);
    }
}

/// The signed decimal value of `s`, or `Err` where `s` is not the text of a
/// 32-bit integer — empty, a bare sign, a non-digit, or out of range.
pub fn parse_i32(s: &str) -> (r: Result<i32, ()>)
    ensures
        r is Ok <==> is_i32_text(s@),
        r matches Ok(v) ==> v as int == int_text_val(s@),
{
    let n = s.unicode_len();
    if n == 0 {
        return Err(());
    }
    let c0 = s.get_char(0);
    let negative = c0 == '-';
    let off: usize = if c0 == '-' || c0 == '+' {
        1
    } else {
        0
    };
    let ghost body = int_text_body(s@);
    proof {
        assert(body =~= s@.subrange(off as int, n as int));
    }
    if n == off {
        return Err(());
    }
    let mut acc: u64 = 0;
    let mut i: usize = off;
    proof {
        assert(body.take(0) =~= Seq::<char>::empty());
    }
    while i < n
        invariant
            off <= i <= n,
            n == s@.len(),
            off == 1 ==> (s@[0] == '+' || s@[0] == '-'),
            off == 0 ==> !(s@[0] == '+' || s@[0] == '-'),
            negative <==> s@[0] == '-',
            body == int_text_body(s@),
            body.len() == n - off,
            forall|j: int| 0 <= j < body.len() ==> body[j] == s@[j + off],
            forall|j: int| 0 <= j < i - off ==> is_digit(body[j]),
            acc as int == digits_val(body.take(i - off)),
            acc <= 0xFFFF_FFFFu64 * 10 + 9,
        decreases n - i,
    {
        let c = s.get_char(i);
        if !(c >= '0' && c <= '9') {
            assert(!is_digit(body[i - off]));
            return Err(());
        }
        if acc > 0xFFFF_FFFF {
            proof {
                if all_digits(body) {
                    lemma_digits_val_prefix(body, i - off);
                    lemma_digits_val_nonneg(body);
                }
            }
            return Err(());
        }
        let d = (c as u32) - ('0' as u32);
        proof {
            assert(body.take(i - off + 1).drop_last() =~= body.take(i - off));
            assert(body.take(i - off + 1).last() == body[i - off]);
            assert(d as int == digit_val(body[i - off]));
        }
        acc = acc * 10 + (d as u64);
        i += 1;
    }
    proof {
        assert(body.take(n - off) =~= body);
        assert(all_digits(body));
    }
    if negative {
        if acc > 0x8000_0000 {
            proof {
                lemma_digits_val_nonneg(body);
            }
            Err(())
        } else {
            Ok((-(acc as i64)) as i32)
        }
    } else {
        if acc > 0x7FFF_FFFF {
            Err(())
        } else {
            Ok(acc as i32)
        }
    }
}

} // verus!
