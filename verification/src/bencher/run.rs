//! What a benchmark run reads from the output of the load tester.

use vstd::prelude::*;

use vstd::string::StringSliceAdditionalSpecFns;

use crate::peer_id::{regex_captures, regex_captures_of};

verus! {

/// Whether the byte is an ASCII decimal digit
pub open spec fn is_digit(b: u8) -> bool {
    48 <= b <= 57
}

/// The number that the decimal digits stand for
pub open spec fn digits_value(s: Seq<u8>) -> int
    decreases s.len(),
{
    if s.len() == 0 {
        0
    } else {
        digits_value(s.drop_last()) * 10 + (s.last() - 48)
    }
}

/// The digits of the text, after one optional leading `+`
pub open spec fn unsigned_digits(s: Seq<u8>) -> Seq<u8> {
    if s.len() > 0 && s[0] == 43 {
        s.drop_first()
    } else {
        s
    }
}

/// What `str::parse::<u64>` gives for the text: the number of its digits
/// (after an optional `+`) if there is at least one, all are decimal digits
/// and the number fits
pub open spec fn parse_u64_spec(s: Seq<u8>) -> Option<u64> {
    let d = unsigned_digits(s);
    if d.len() > 0 && (forall|i: int| 0 <= i < d.len() ==> is_digit(#[trigger] d[i])) && digits_value(d)
        <= u64::MAX {
        Some(digits_value(d) as u64)
    } else {
        None
    }
}

proof fn lemma_digits_value_monotone(d: Seq<u8>, i: int, j: int)
    requires
        0 <= i <= j <= d.len(),
        forall|k: int| 0 <= k < d.len() ==> is_digit(#[trigger] d[k]),
    ensures
        0 <= digits_value(d.take(i)) <= digits_value(d.take(j)),
    decreases j,
{
    if j > i {
        lemma_digits_value_monotone(d, i, j - 1);
        assert(d.take(j).drop_last() =~= d.take(j - 1));
    } else {
        lemma_digits_value_nonneg(d.take(i));
    }
}

proof fn lemma_digits_value_nonneg(d: Seq<u8>)
    requires
        forall|k: int| 0 <= k < d.len() ==> is_digit(#[trigger] d[k]),
    ensures
        digits_value(d) >= 0,
    decreases d.len(),
{
    if d.len() > 0 {
        lemma_digits_value_nonneg(d.drop_last());
    }
}

/// Parses an unsigned decimal number, as `str::parse::<u64>` does
pub fn parse_u64(s: &[u8]) -> (r: Option<u64>)
    ensures
        r == parse_u64_spec(s@),
{
    let start: usize = if s.len() > 0 && s[0] == 43 { 1 } else { 0 };
    let ghost d = unsigned_digits(s@);
    proof {
        assert(d =~= s@.subrange(start as int, s@.len() as int));
    }
    if start == s.len() {
        return None;
    }
    let mut value: u64 = 0;
    let mut i: usize = start;
    while i < s.len()
        invariant
            d == s@.subrange(start as int, s@.len() as int),
            d == unsigned_digits(s@),
            start <= i <= s@.len(),
            forall|k: int| 0 <= k < i - start ==> is_digit(#[trigger] d[k]),
            value == digits_value(d.take(i - start)),
        decreases s@.len() - i,
    {
        let b = s[i];
        if b < 48 || b > 57 {
            proof {
                assert(!is_digit(d[i - start]));
            }
            return None;
        }
        let ghost prefix = d.take(i - start + 1);
        proof {
            assert(prefix.drop_last() =~= d.take(i - start));
            assert(prefix.last() == b);
            assert(d[i - start] == b);
            lemma_digits_value_nonneg(d.take(i - start));
        }
        let digit = (b - 48) as u64;
        match value.checked_mul(10) {
            Some(tens) => match tens.checked_add(digit) {
                Some(next) => {
                    value = next;
                },
                None => {
                    proof {
                        lemma_not_fitting(d, i - start + 1);
                    }
                    return None;
                },
            },
            None => {
                proof {
                    lemma_not_fitting(d, i - start + 1);
                }
                return None;
            },
        }
        i = i + 1;
    }
    proof {
        assert(d.take(i - start) =~= d);
    }
    Some(value)
}

/// Once a prefix of the digits does not fit, the number does not fit or
/// some later byte is no digit
proof fn lemma_not_fitting(d: Seq<u8>, n: int)
    requires
        0 < n <= d.len(),
        forall|k: int| 0 <= k < n ==> is_digit(#[trigger] d[k]),
        digits_value(d.take(n)) > u64::MAX,
    ensures
        !((forall|k: int| 0 <= k < d.len() ==> is_digit(#[trigger] d[k])) && digits_value(d) <= u64::MAX),
{
    if forall|k: int| 0 <= k < d.len() ==> is_digit(#[trigger] d[k]) {
        lemma_digits_value_monotone(d, n, d.len() as int);
        assert(d.take(d.len() as int) =~= d);
    }
}

/// The average number of responses per second that the load tester
/// reported: the digits after the first "Average responses per second: "
/// in its output, as a number
pub fn extract_avg_responses(load_test_stdout: &str) -> (r: Option<u64>)
    ensures
        r == match regex_captures_of(
            "Average responses per second: (?P<avg>[0-9]+)"@,
            load_test_stdout.spec_bytes(),
            "avg"@,
            "avg"@,
        ) {
            Some((digits, _)) => parse_u64_spec(digits),
            None => None,
        },
{
    match regex_captures("Average responses per second: (?P<avg>[0-9]+)", load_test_stdout.as_bytes(), "avg", "avg") {
        Some((digits, _)) => parse_u64(digits.as_slice()),
        None => None,
    }
}

} // verus!
