use vstd::prelude::*;
use vstd::string::*;
use vstd::utf8::is_ascii_chars;

verus! {

/// True for the ten ASCII decimal digits.
pub open spec fn is_digit(c: char) -> bool {
    '0' <= c <= '9'
}

/// The number that the digit `c` stands for.
pub open spec fn digit_value(c: char) -> nat {
    (c as u32 - '0' as u32) as nat
}

/// True when every character of `s` is a decimal digit.
pub open spec fn all_digits(s: Seq<char>) -> bool {
    forall|i: int| 0 <= i < s.len() ==> is_digit(#[trigger] s[i])
}

/// The number written by the digits `s`, most significant first.
pub open spec fn digits_value(s: Seq<char>) -> nat
    decreases s.len(),
{
    if s.len() == 0 {
        0
    } else {
        digits_value(s.drop_last()) * 10 + digit_value(s.last())
    }
}

/// What is left of `s` once one leading `+` is taken off.
pub open spec fn unsigned_part(s: Seq<char>) -> Seq<char> {
    if s.len() > 0 && s[0] == '+' {
        s.subrange(1, s.len() as int)
    } else {
        s
    }
}

/// The number that `s` writes in decimal, if it writes one that fits 64 bits.
///
/// A number is an optional `+` followed by at least one digit and nothing
/// else: no blanks, no `-`, no separators.
pub open spec fn decimal(s: Seq<char>) -> Option<u64> {
    let digits = unsigned_part(s);
    if digits.len() > 0 && all_digits(digits) && digits_value(digits) <= u64::MAX {
        Some(digits_value(digits) as u64)
    } else {
        None
    }
}

/// A run of digits is worth at least as much as any of its prefixes.
proof fn lemma_prefix_value(s: Seq<char>, k: int)
    requires
        0 <= k <= s.len(),
    ensures
        digits_value(s.take(k)) <= digits_value(s),
    decreases s.len(),
{
    if k < s.len() {
        lemma_prefix_value(s.drop_last(), k);
        assert(s.drop_last().take(k) =~= s.take(k));
    } else {
        assert(s.take(k) =~= s);
    }
}

/// Reads `target` as a decimal number.
fn parse_decimal(target: &str) -> (r: Option<u64>)
    ensures
        r == decimal(target@),
{
    if !target.is_ascii() {
        proof {
            let i = choose|i: int|
                0 <= i < target@.len() && !('\0' <= #[trigger] target@[i] <= '\u{7f}');
            let digits = unsigned_part(target@);
            if digits.len() == target@.len() {
                assert(!is_digit(digits[i]));
            } else if i > 0 {
                assert(!is_digit(digits[i - 1]));
            }
        }
        return None;
    }
    proof {
        is_ascii_spec_bytes(target);
    }
    let bytes = target.as_bytes();
    let n: usize = bytes.len();
    let start: usize = if n > 0 && bytes[0] == 43u8 { 1 } else { 0 };
    let ghost digits = unsigned_part(target@);
    assert(digits =~= target@.subrange(start as int, n as int));
    if start == n {
        return None;
    }
    let mut value: u64 = 0;
    let mut i: usize = start;
    while i < n
        invariant
            start <= i <= n,
            n == target@.len(),
            bytes@ == Seq::new(target@.len(), |j: int| target@[j] as u8),
            is_ascii_chars(target@),
            digits == unsigned_part(target@),
            digits == target@.subrange(start as int, n as int),
            all_digits(digits.take(i - start)),
            value == digits_value(digits.take(i - start)),
        decreases n - i,
    {
        let b: u8 = bytes[i];
        let ghost c = target@[i as int];
        assert(c == digits[i - start]);
        if b < 48u8 || b > 57u8 {
            assert(!is_digit(c));
            return None;
        }
        let d: u64 = (b - 48u8) as u64;
        let ghost longer = digits.take(i - start + 1);
        assert(longer.drop_last() =~= digits.take(i - start));
        assert(longer.last() == c);
        assert(d == digit_value(c));
        if value > (u64::MAX - d) / 10 {
            proof {
                lemma_prefix_value(digits, i - start + 1);
            }
            return None;
        }
        value = value * 10 + d;
        i = i + 1;
    }
    assert(digits.take(i - start) =~= digits);
    Some(value)
}

/// Reads `target` as a decimal number, or hands back `err` as the complaint.
pub fn string_to(target: &str, err: &str) -> (r: Result<u64, String>)
    ensures
        match r {
            Ok(value) => decimal(target@) == Some(value),
            Err(message) => decimal(target@).is_none() && message@ == err@,
        },
{
    match parse_decimal(target) {
        Some(value) => Ok(value),
        None => Err(err.to_owned()),
    }
}

} // verus!
