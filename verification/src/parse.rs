use vstd::prelude::*;
use vstd::string::StrSliceExecFns;

verus! {

/// A decimal digit.
pub open spec fn is_digit(c: char) -> bool {
    '0' <= c && c <= '9'
}

pub open spec fn all_digits(s: Seq<char>) -> bool {
    forall|i: int| 0 <= i < s.len() ==> is_digit(#[trigger] s[i])
}

pub open spec fn digit_val(c: char) -> int {
    c as int - '0' as int
}

/// The number a digit string denotes, most significant digit first.
pub open spec fn digits_value(s: Seq<char>) -> int
    decreases s.len(),
{
    if s.len() == 0 {
        0
    } else {
        digits_value(s.drop_last()) * 10 + digit_val(s.last())
    }
}

/// What parsing a whole string as an unsigned number yields: an optional
/// leading plus sign, then at least one digit, nothing else, and a value
/// that fits.
pub open spec fn parse_u32_spec(s: Seq<char>) -> Option<u32> {
    let digits = if s.len() > 0 && s[0] == '+' {
        s.drop_first()
    } else {
        s
    };
    if digits.len() > 0 && all_digits(digits) && digits_value(digits) <= u32::MAX {
        Some(digits_value(digits) as u32)
    } else {
        None
    }
}

/// A digit string's value only grows as digits are appended.
proof fn lemma_digits_value_monotone(s: Seq<char>, i: int)
    requires
        0 <= i <= s.len(),
        all_digits(s),
    ensures
        digits_value(s.take(i)) <= digits_value(s),
        digits_value(s) >= 0,
    decreases s.len(),
{
    if s.len() == 0 {
        assert(s.take(i) =~= s);
    } else {
        let t = s.drop_last();
        assert(all_digits(t));
        lemma_digits_value_monotone(t, if i <= t.len() {
            i
        } else {
            t.len() as int
        });
        assert(is_digit(s.last()));
        assert(digit_val(s.last()) >= 0);
        if i <= t.len() {
            assert(s.take(i) =~= t.take(i));
            lemma_digits_value_monotone(t, i);
        } else {
            assert(s.take(i) =~= s);
        }
    }
}

/// Parses the characters `from..to` of `s` as `parse_u32_spec` reads
/// them.
fn parse_digits(s: &str, from: usize, to: usize) -> (r: Option<u32>)
    requires
        from <= to <= s@.len(),
    ensures
        r == parse_u32_spec(s@.subrange(from as int, to as int)),
{
    let ghost whole = s@.subrange(from as int, to as int);
    let start = if to > from && s.get_char(from) == '+' {
        from + 1
    } else {
        from
    };
    let ghost digits = s@.subrange(start as int, to as int);
    proof {
        if to > from && s@[from as int] == '+' {
            assert(whole.drop_first() =~= digits);
        } else {
            assert(whole =~= digits);
        }
    }
    if start == to {
        return None;
    }
    let mut acc: u64 = 0;
    let mut i = start;
    #[verifier::loop_isolation(false)]
    while i < to
        invariant
            start <= i <= to <= s@.len(),
            digits == s@.subrange(start as int, to as int),
            all_digits(digits.take(i - start)),
            acc == digits_value(digits.take(i - start)),
            acc <= u32::MAX,
        decreases to - i,
    {
        let c = s.get_char(i);
        proof {
            assert(digits[i - start] == s@[i as int]);
        }
        if !(c >= '0' && c <= '9') {
            proof {
                assert(!is_digit(digits[i - start]));
            }
            return None;
        }
        let d: u64 = (c as u32 as u64) - 48;
        proof {
            assert(d == digit_val(digits[i - start]));
            assert(digits.take(i - start + 1).drop_last() =~= digits.take(i - start));
            assert(digits.take(i - start + 1).last() == digits[i - start]);
        }
        let next: u64 = acc * 10 + d;
        if next > 0xffff_ffff {
            proof {
                if all_digits(digits) {
                    lemma_digits_value_monotone(digits, i - start + 1);
                }
            }
            return None;
        }
        acc = next;
        i += 1;
    }
    proof {
        assert(digits.take(to - start) =~= digits);
    }
    Some(acc as u32)
}

/// The 11-character marker that precedes an attempt id in a test URL.
pub open spec fn marker() -> Seq<char> {
    "attempt_id="@
}

/// The marker sits at `i` with at least one digit right after it.
pub open spec fn marker_match_at(s: Seq<char>, i: int) -> bool {
    0 <= i && i + 11 < s.len() && s.subrange(i, i + 11) == marker() && is_digit(s[i + 11])
}

/// The first position at or after `from` where the marker sits with a
/// digit behind it.
pub open spec fn first_marker_match(s: Seq<char>, from: int) -> Option<int>
    decreases s.len() + 12 - from,
{
    if from < 0 || from + 12 > s.len() {
        None
    } else if marker_match_at(s, from) {
        Some(from)
    } else {
        first_marker_match(s, from + 1)
    }
}

/// The end of the digit run beginning at `j`: the first position at or
/// after `j` that is not a digit.
pub open spec fn digit_run_end(s: Seq<char>, j: int) -> int
    decreases s.len() - j,
{
    if j < 0 || j >= s.len() || !is_digit(s[j]) {
        j
    } else {
        digit_run_end(s, j + 1)
    }
}

/// What extracting an attempt id from a command argument yields: the
/// whole argument read as a number, or else the maximal digit run after
/// the first `attempt_id=` marker, if it fits.
pub open spec fn parse_solve_spec(s: Seq<char>) -> Option<u32> {
    match parse_u32_spec(s) {
        Some(v) => Some(v),
        None => match first_marker_match(s, 0) {
            None => None,
            Some(i) => parse_u32_spec(s.subrange(i + 11, digit_run_end(s, i + 11))),
        },
    }
}

fn digit_at(s: &str, i: usize) -> (r: bool)
    requires
        i < s@.len(),
    ensures
        r == is_digit(s@[i as int]),
{
    let c = s.get_char(i);
    c >= '0' && c <= '9'
}

fn marker_at(s: &str, i: usize, n: usize) -> (r: bool)
    requires
        n == s@.len(),
        i + 12 <= n,
    ensures
        r == marker_match_at(s@, i as int),
{
    let pat = "attempt_id=";
    proof {
        reveal_strlit("attempt_id=");
    }
    let mut j: usize = 0;
    while j < 11
        invariant
            j <= 11,
            n == s@.len(),
            i + 12 <= n,
            pat@ == marker(),
            pat@.len() == 11,
            forall|jj: int| 0 <= jj < j ==> s@[i + jj] == marker()[jj],
        decreases 11 - j,
    {
        if s.get_char(i + j) != pat.get_char(j) {
            proof {
                assert(s@.subrange(i as int, i + 11)[j as int] != marker()[j as int]);
            }
            return false;
        }
        j += 1;
    }
    proof {
        assert(s@.subrange(i as int, i + 11) =~= marker());
    }
    let c = s.get_char(i + 11);
    c >= '0' && c <= '9'
}

/// Extracts an attempt id from a solve command's argument: either the
/// argument is the id itself, or it is a test URL holding
/// `attempt_id=<digits>`, whose first such run is taken — if the number
/// fits.
pub fn parse_solve(input: &str) -> (r: Option<u32>)
    ensures
        r == parse_solve_spec(input@),
{
    let n = input.unicode_len();
    if let Some(v) = parse_digits(input, 0, n) {
        proof {
            assert(input@.subrange(0, n as int) =~= input@);
        }
        return Some(v);
    }
    proof {
        assert(input@.subrange(0, n as int) =~= input@);
    }
    if n < 12 {
        return None;
    }
    let mut i: usize = 0;
    while i <= n - 12 && !marker_at(input, i, n)
        invariant
            n == input@.len(),
            12 <= n,
            0 <= i,
            i + 12 <= n + 1,
            first_marker_match(input@, 0) == first_marker_match(input@, i as int),
        decreases n - i,
    {
        i += 1;
    }
    if i > n - 12 {
        proof {
            assert(first_marker_match(input@, i as int) is None);
        }
        return None;
    }
    proof {
        assert(first_marker_match(input@, i as int) == Some(i as int));
    }
    let run_start = i + 11;
    let mut e = run_start;
    while e < n && digit_at(input, e)
        invariant
            n == input@.len(),
            run_start <= e <= n,
            digit_run_end(input@, run_start as int) == digit_run_end(input@, e as int),
        decreases n - e,
    {
        e += 1;
    }
    proof {
        assert(digit_run_end(input@, e as int) == e as int);
    }
    parse_digits(input, run_start, e)
}

} // verus!
