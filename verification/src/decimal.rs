//! Decimal numbers as ASCII bytes: how a length is written into a frame
//! header, and how it is read back from one.

use vstd::prelude::*;
use vstd::string::StringExecFns;
use vstd::string::StrSliceExecFns;

verus! {

/// The ASCII digit that stands for `d`, for `d` below ten.
pub open spec fn digit_byte(d: nat) -> u8 {
    (48 + d) as u8
}

/// Whether `b` is one of the ASCII digits `0` to `9`.
pub open spec fn is_digit(b: u8) -> bool {
    48 <= b <= 57
}

/// Whether every byte of `s` is an ASCII digit.
pub open spec fn all_digits(s: Seq<u8>) -> bool {
    forall|i: int| 0 <= i < s.len() ==> is_digit(#[trigger] s[i])
}

/// The decimal digits of `n`, most significant first, without leading zeros.
pub open spec fn decimal(n: nat) -> Seq<u8>
    decreases n,
{
    if n < 10 {
        seq![digit_byte(n)]
    } else {
        decimal(n / 10).push(digit_byte(n % 10))
    }
}

/// The number that the digits `s` denote, read most significant first.
/// The empty sequence denotes zero.
pub open spec fn digits_value(s: Seq<u8>) -> nat
    decreases s.len(),
{
    if s.len() == 0 {
        0
    } else {
        digits_value(s.drop_last()) * 10 + (s.last() - 48) as nat
    }
}

/// Whether `b` is ASCII white space: a space, or one of the controls from
/// horizontal tab to carriage return.
pub open spec fn is_blank(b: u8) -> bool {
    b == 32 || 9 <= b <= 13
}

/// `s` without the white space at its start.
pub open spec fn trim_start(s: Seq<u8>) -> Seq<u8>
    decreases s.len(),
{
    if s.len() > 0 && is_blank(s[0]) {
        trim_start(s.drop_first())
    } else {
        s
    }
}

/// `s` without the white space at its end.
pub open spec fn trim_end(s: Seq<u8>) -> Seq<u8>
    decreases s.len(),
{
    if s.len() > 0 && is_blank(s.last()) {
        trim_end(s.drop_last())
    } else {
        s
    }
}

/// `s` without a single leading plus sign, if it has one.
pub open spec fn unsigned_part(s: Seq<u8>) -> Seq<u8> {
    if s.len() > 0 && s[0] == 43 {
        s.drop_first()
    } else {
        s
    }
}

/// The length that a header value declares.
///
/// White space around the value is ignored. What is left must be one or more
/// decimal digits, which a single plus sign may precede, and the number must fit
/// in a `usize`. Any other value declares no length.
pub open spec fn declared_length(value: Seq<u8>) -> Option<nat> {
    let digits = unsigned_part(trim_end(trim_start(value)));
    if digits.len() > 0 && all_digits(digits) && digits_value(digits) <= usize::MAX {
        Some(digits_value(digits))
    } else {
        None
    }
}

/// Every byte of a rendered number is a digit, and there is at least one.
pub proof fn lemma_decimal_digits(n: nat)
    ensures
        decimal(n).len() >= 1,
        all_digits(decimal(n)),
    decreases n,
{
    if n >= 10 {
        lemma_decimal_digits(n / 10);
    }
}

/// Reading back a rendered number gives the number.
pub proof fn lemma_decimal_value(n: nat)
    ensures
        digits_value(decimal(n)) == n,
    decreases n,
{
    if n < 10 {
        assert(decimal(n).drop_last() =~= Seq::<u8>::empty());
        assert(digits_value(decimal(n).drop_last()) == 0);
    } else {
        lemma_decimal_value(n / 10);
        assert(decimal(n).drop_last() =~= decimal(n / 10));
    }
}

/// A rendered number declares itself: the header value that the encoder
/// writes is read back as the same length.
pub proof fn lemma_declared_decimal(n: nat)
    requires
        n <= usize::MAX,
    ensures
        declared_length(decimal(n)) == Some(n),
{
    lemma_decimal_digits(n);
    lemma_decimal_value(n);
    let s = decimal(n);
    assert(is_digit(s[0]));
    assert(is_digit(s.last()));
    assert(trim_start(s) == s);
    assert(trim_end(s) == s);
    assert(unsigned_part(s) == s);
}

/// The characters that stand for the ASCII bytes `bytes`, one for one.
pub open spec fn ascii_text(bytes: Seq<u8>) -> Seq<char> {
    Seq::new(bytes.len(), |i: int| bytes[i] as char)
}

/// A prefix of a digit string denotes no more than the whole string.
pub proof fn lemma_digits_value_prefix(s: Seq<u8>, k: int)
    requires
        all_digits(s),
        0 <= k <= s.len(),
    ensures
        digits_value(s.subrange(0, k)) <= digits_value(s),
    decreases s.len(),
{
    if k == s.len() {
        assert(s.subrange(0, k) =~= s);
    } else {
        let front = s.drop_last();
        assert(is_digit(s.last()));
        assert forall|i: int| 0 <= i < front.len() implies is_digit(#[trigger] front[i]) by {
            assert(front[i] == s[i]);
        }
        lemma_digits_value_prefix(front, k);
        assert(front.subrange(0, k) =~= s.subrange(0, k));
    }
}

/// Appends the decimal digits of `n` to `out`.
pub fn append_decimal(n: usize, out: &mut String)
    ensures
        final(out)@ == old(out)@ + ascii_text(decimal(n as nat)),
    decreases n,
{
    if n >= 10 {
        append_decimal(n / 10, out);
    }
    let d: usize = n % 10;
    let table = "0123456789";
    proof {
        reveal_strlit("0123456789");
    }
    let digit = table.substring_ascii(d, d + 1);
    out.append(digit);
    proof {
        let one = seq![digit_byte(d as nat)];
        assert(digit@ =~= ascii_text(one));
        if n >= 10 {
            assert(ascii_text(decimal(n as nat)) =~= ascii_text(decimal((n / 10) as nat))
                + ascii_text(one));
        } else {
            assert(decimal(n as nat) =~= one);
        }
    }
}

/// Whether `b` is ASCII white space.
fn blank(b: u8) -> (r: bool)
    ensures
        r == is_blank(b),
{
    b == 32 || (9 <= b && b <= 13)
}

/// Reads the length that a header value declares, if it declares one.
pub fn parse_length(value: &[u8]) -> (r: Option<usize>)
    ensures
        match r {
            Some(n) => declared_length(value@) == Some(n as nat),
            None => declared_length(value@) is None,
        },
{
    let mut start: usize = 0;
    let mut end: usize = value.len();
    assert(value@.subrange(0, value.len() as int) =~= value@);
    while start < end && blank(value[start])
        invariant
            start <= end == value.len(),
            trim_start(value@) == trim_start(value@.subrange(start as int, end as int)),
        decreases end - start,
    {
        proof {
            let here = value@.subrange(start as int, end as int);
            assert(here.drop_first() =~= value@.subrange(start + 1, end as int));
        }
        start = start + 1;
    }
    let ghost kept = value@.subrange(start as int, end as int);
    assert(trim_start(value@) == kept);
    while start < end && blank(value[end - 1])
        invariant
            start <= end <= value.len(),
            kept == value@.subrange(start as int, kept.len() + start),
            kept.len() + start <= value.len(),
            trim_end(kept) == trim_end(value@.subrange(start as int, end as int)),
        decreases end - start,
    {
        proof {
            let here = value@.subrange(start as int, end as int);
            assert(here.drop_last() =~= value@.subrange(start as int, end - 1));
        }
        end = end - 1;
    }
    let ghost trimmed = value@.subrange(start as int, end as int);
    assert(trim_end(kept) == trimmed);
    if start < end && value[start] == 43 {
        proof {
            assert(trimmed.drop_first() =~= value@.subrange(start + 1, end as int));
        }
        start = start + 1;
    }
    let ghost digits = value@.subrange(start as int, end as int);
    assert(digits == unsigned_part(trimmed));
    if start == end {
        return None;
    }
    let mut total: usize = 0;
    let mut i: usize = start;
    while i < end
        invariant
            start <= i <= end <= value.len(),
            digits == value@.subrange(start as int, end as int),
            digits == unsigned_part(trim_end(trim_start(value@))),
            all_digits(digits.subrange(0, i - start)),
            total == digits_value(digits.subrange(0, i - start)),
        decreases end - i,
    {
        let b = value[i];
        let ghost seen = digits.subrange(0, i - start);
        let ghost next = digits.subrange(0, i + 1 - start);
        proof {
            assert(next.drop_last() =~= seen);
            assert(next.last() == b);
        }
        if b < 48 || b > 57 {
            proof {
                assert(!is_digit(digits[i - start]));
            }
            return None;
        }
        let d: usize = (b - 48) as usize;
        let scaled = total.checked_mul(10);
        let grown = match scaled {
            Some(t) => t.checked_add(d),
            None => None,
        };
        match grown {
            Some(t) => {
                proof {
                    assert forall|j: int| 0 <= j < next.len() implies is_digit(#[trigger] next[j]) by {
                        if j < seen.len() {
                            assert(next[j] == seen[j]);
                        }
                    }
                }
                total = t;
            },
            None => {
                proof {
                    assert(digits_value(next) > usize::MAX);
                    if all_digits(digits) {
                        lemma_digits_value_prefix(digits, i + 1 - start);
                    }
                }
                return None;
            },
        }
        i = i + 1;
    }
    proof {
        assert(digits.subrange(0, i - start) =~= digits);
    }
    Some(total)
}

} // verus!
