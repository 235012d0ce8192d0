//! Parsing of the operator's raw move input.
//!
//! A raw line of text is trimmed of surrounding whitespace and read as an
//! unsigned decimal number, which must lie in the closed range [1, 9]; the
//! result is the zero-based cell index. Every failure is recoverable: the
//! caller re-prompts and nothing else changes.

use vstd::prelude::*;
use vstd::string::StrSliceExecFns;

verus! {

/// Everything that can go wrong between reading a line and placing a mark.
/// The first three arise in the input layer; `AlreadySelected` is the
/// engine's rejection of a move onto an occupied cell.
#[derive(Clone, Copy, PartialEq, Eq, Structural, Debug)]
pub enum PlayerInputError {
    /// The number read lies outside the closed range [1, 9].
    OutOfRange,
    /// The text is not readable as an unsigned integer.
    NotANumber,
    /// The underlying line read did not succeed.
    ReadFailure,
    /// The addressed cell already holds a mark.
    AlreadySelected,
}

/// The generic retry prompt shown after any input-layer failure.
pub open spec fn num_error_text() -> Seq<char> {
    "Expected a number between 1 and 9."@
}

/// The generic retry prompt shown after any input-layer failure.
pub fn num_error() -> (r: String)
    ensures
        r@ == num_error_text(),
{
    String::from_str("Expected a number between 1 and 9.")
}

/// Whitespace stripped from both ends of the raw input line.
pub open spec fn is_input_ws(c: char) -> bool {
    c == ' ' || c == '\t' || c == '\n' || c == '\r'
}

/// The input with its leading whitespace removed.
pub open spec fn ltrim(s: Seq<char>) -> Seq<char>
    decreases s.len(),
{
    if s.len() > 0 && is_input_ws(s[0]) {
        ltrim(s.drop_first())
    } else {
        s
    }
}

/// The input with its trailing whitespace removed.
pub open spec fn rtrim(s: Seq<char>) -> Seq<char>
    decreases s.len(),
{
    if s.len() > 0 && is_input_ws(s[s.len() - 1]) {
        rtrim(s.drop_last())
    } else {
        s
    }
}

/// The input with whitespace removed from both ends.
pub open spec fn trimmed(s: Seq<char>) -> Seq<char> {
    rtrim(ltrim(s))
}

pub open spec fn is_digit(c: char) -> bool {
    '0' as int <= c as int && c as int <= '9' as int
}

pub open spec fn digit_val(c: char) -> int {
    c as int - '0' as int
}

pub open spec fn all_digits(s: Seq<char>) -> bool {
    forall|i: int| 0 <= i < s.len() ==> is_digit(s[i])
}

/// The value of a sequence of decimal digits, most significant first.
pub open spec fn digits_value(s: Seq<char>) -> int
    decreases s.len(),
{
    if s.len() == 0 {
        0
    } else {
        digits_value(s.drop_last()) * 10 + digit_val(s.last())
    }
}

/// The digits of a trimmed input: an unsigned number may carry one
/// optional leading plus sign.
pub open spec fn digit_part(s: Seq<char>) -> Seq<char> {
    if s.len() > 0 && s[0] == '+' {
        s.drop_first()
    } else {
        s
    }
}

/// Whether a trimmed input reads as an unsigned decimal number.
pub open spec fn parses_as_number(s: Seq<char>) -> bool {
    digit_part(s).len() > 0 && all_digits(digit_part(s))
}

/// The number a trimmed input reads as, when `parses_as_number` holds.
pub open spec fn number_of(s: Seq<char>) -> int {
    digits_value(digit_part(s))
}

/// Removing an all-whitespace prefix does not change what `ltrim` leaves.
proof fn lemma_ltrim_prefix(s: Seq<char>, a: int)
    requires
        0 <= a <= s.len(),
        forall|k: int| 0 <= k < a ==> is_input_ws(s[k]),
    ensures
        ltrim(s) == ltrim(s.subrange(a, s.len() as int)),
    decreases a,
{
    if a == 0 {
        assert(s.subrange(0, s.len() as int) =~= s);
    } else {
        let t = s.drop_first();
        assert(t =~= s.subrange(1, s.len() as int));
        lemma_ltrim_prefix(t, a - 1);
        assert(t.subrange(a - 1, t.len() as int) =~= s.subrange(a, s.len() as int));
    }
}

/// `ltrim` leaves a sequence unchanged when it does not start in whitespace.
proof fn lemma_ltrim_fixed(s: Seq<char>)
    requires
        s.len() == 0 || !is_input_ws(s[0]),
    ensures
        ltrim(s) == s,
{
}

/// Removing an all-whitespace suffix does not change what `rtrim` leaves.
proof fn lemma_rtrim_suffix(s: Seq<char>, b: int)
    requires
        0 <= b <= s.len(),
        forall|k: int| b <= k < s.len() ==> is_input_ws(s[k]),
    ensures
        rtrim(s) == rtrim(s.subrange(0, b)),
    decreases s.len() - b,
{
    if b == s.len() {
        assert(s.subrange(0, s.len() as int) =~= s);
    } else {
        let t = s.drop_last();
        assert(t =~= s.subrange(0, s.len() - 1));
        lemma_rtrim_suffix(t, b);
        assert(t.subrange(0, b) =~= s.subrange(0, b));
    }
}

/// `rtrim` leaves a sequence unchanged when it does not end in whitespace.
proof fn lemma_rtrim_fixed(s: Seq<char>)
    requires
        s.len() == 0 || !is_input_ws(s[s.len() - 1]),
    ensures
        rtrim(s) == s,
{
}

/// The value of a digit sequence is never negative.
proof fn lemma_digits_value_nonneg(s: Seq<char>)
    requires
        all_digits(s),
    ensures
        digits_value(s) >= 0,
    decreases s.len(),
{
    if s.len() > 0 {
        assert(all_digits(s.drop_last()));
        lemma_digits_value_nonneg(s.drop_last());
    }
}

/// A digit sequence is worth at least as much as any of its prefixes.
proof fn lemma_digits_value_grows(s: Seq<char>, i: int)
    requires
        all_digits(s),
        0 <= i <= s.len(),
    ensures
        digits_value(s.subrange(0, i)) <= digits_value(s),
    decreases s.len() - i,
{
    if i == s.len() {
        assert(s.subrange(0, s.len() as int) =~= s);
    } else {
        let t = s.drop_last();
        assert(t =~= s.subrange(0, s.len() - 1));
        assert(all_digits(t));
        lemma_digits_value_grows(t, i);
        assert(t.subrange(0, i) =~= s.subrange(0, i));
        lemma_digits_value_nonneg(t);
    }
}

/// Whether `c` is whitespace that the input layer strips.
fn is_ws_char(c: char) -> (r: bool)
    ensures
        r == is_input_ws(c),
{
    c == ' ' || c == '\t' || c == '\n' || c == '\r'
}

/// Reads one raw input line as a move: after trimming whitespace, the text
/// must be an unsigned decimal number in the closed range [1, 9], and the
/// result is the zero-based cell index.
///
/// `NotANumber` reports text that does not read as an unsigned integer
/// (including one too large for `usize`); `OutOfRange` reports a readable
/// number outside [1, 9].
pub fn parse_move(raw: &str) -> (r: Result<usize, PlayerInputError>)
    ensures
        ({
            let t = trimmed(raw@);
            &&& (r is Ok <==> parses_as_number(t) && 1 <= number_of(t) <= 9)
            &&& (r matches Ok(i) ==> i as int == number_of(t) - 1 && i < 9)
            &&& (r == Err::<usize, PlayerInputError>(PlayerInputError::OutOfRange) <==> (
            parses_as_number(t) && number_of(t) <= usize::MAX as int && !(1 <= number_of(t)
                <= 9)))
            &&& (r == Err::<usize, PlayerInputError>(PlayerInputError::NotANumber) <==> (
            !parses_as_number(t) || number_of(t) > usize::MAX as int))
        }),
{
    let n = raw.unicode_len();
    let mut a: usize = 0;
    while a < n && is_ws_char(raw.get_char(a))
        invariant
            0 <= a <= n,
            n == raw@.len(),
            forall|k: int| 0 <= k < a ==> is_input_ws(raw@[k]),
        decreases n - a,
    {
        a = a + 1;
    }
    let mut b: usize = n;
    while b > a && is_ws_char(raw.get_char(b - 1))
        invariant
            a <= b <= n,
            n == raw@.len(),
            forall|k: int| b <= k < n ==> is_input_ws(raw@[k]),
        decreases b,
    {
        b = b - 1;
    }
    let ghost t = raw@.subrange(a as int, b as int);
    proof {
        lemma_ltrim_prefix(raw@, a as int);
        let u = raw@.subrange(a as int, n as int);
        lemma_ltrim_fixed(u);
        lemma_rtrim_suffix(u, b - a);
        assert(u.subrange(0, b - a) =~= t);
        lemma_rtrim_fixed(t);
        assert(trimmed(raw@) == t);
    }
    let mut start = a;
    if b > a && raw.get_char(a) == '+' {
        start = a + 1;
    }
    let ghost d = raw@.subrange(start as int, b as int);
    proof {
        assert(digit_part(t) =~= d);
    }
    if start == b {
        return Err(PlayerInputError::NotANumber);
    }
    let mut acc: usize = 0;
    let mut k = start;
    while k < b
        invariant
            start <= k <= b,
            b <= n,
            n == raw@.len(),
            start < b,
            d == raw@.subrange(start as int, b as int),
            digit_part(trimmed(raw@)) == d,
            all_digits(d.subrange(0, k - start)),
            acc as int == digits_value(d.subrange(0, k - start)),
        decreases b - k,
    {
        let c = raw.get_char(k);
        let u = c as u32;
        if u < 48 || u > 57 {
            proof {
                assert(d[k - start] == c);
                assert(!is_digit(c));
                assert(!all_digits(d));
            }
            return Err(PlayerInputError::NotANumber);
        }
        let dv = (u - 48) as usize;
        proof {
            assert(d.subrange(0, k + 1 - start).drop_last() =~= d.subrange(0, k - start));
            assert(d.subrange(0, k + 1 - start).last() == c);
        }
        if acc > (usize::MAX - dv) / 10 {
            proof {
                let q = (usize::MAX as int - dv as int) / 10;
                assert(q * 10 <= usize::MAX as int - dv as int);
                assert(q * 10 + 10 > usize::MAX as int - dv as int);
                assert(acc as int * 10 + dv as int > usize::MAX as int);
                if all_digits(d) {
                    assert(all_digits(d.subrange(0, k + 1 - start)));
                    assert(digits_value(d.subrange(0, k + 1 - start)) == acc as int * 10
                        + dv as int);
                    lemma_digits_value_grows(d, k + 1 - start);
                    assert(number_of(trimmed(raw@)) > usize::MAX as int);
                }
            }
            return Err(PlayerInputError::NotANumber);
        }
        proof {
            let q = (usize::MAX as int - dv as int) / 10;
            assert(q * 10 <= usize::MAX as int - dv as int);
            assert(acc as int * 10 + dv as int <= usize::MAX as int);
        }
        acc = acc * 10 + dv;
        k = k + 1;
    }
    proof {
        assert(d.subrange(0, b - start) =~= d);
        assert(parses_as_number(trimmed(raw@)));
        assert(number_of(trimmed(raw@)) == acc as int);
    }
    if 1 <= acc && acc <= 9 {
        Ok(acc - 1)
    } else {
        Err(PlayerInputError::OutOfRange)
    }
}

} // verus!
