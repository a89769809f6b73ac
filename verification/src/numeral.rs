//! Reading decimal numbers from text.
//!
//! A number is written as one or more of the digits `0` to `9`, with an
//! optional sign in front and nothing else: no blanks, no separators. Text
//! that writes a number outside the range of the type asked for reads as no
//! number at all.

use vstd::prelude::*;

verus! {

/// `c` is white space: one of the characters that trimming removes.
pub open spec fn is_blank(c: char) -> bool {
    let u = c as u32;
    ||| 0x09 <= u <= 0x0D
    ||| u == 0x20
    ||| u == 0x85
    ||| u == 0xA0
    ||| u == 0x1680
    ||| 0x2000 <= u <= 0x200A
    ||| u == 0x2028
    ||| u == 0x2029
    ||| u == 0x202F
    ||| u == 0x205F
    ||| u == 0x3000
}

/// `s` without the white space it begins with.
pub open spec fn trim_start(s: Seq<char>) -> Seq<char>
    decreases s.len(),
{
    if s.len() > 0 && is_blank(s.first()) {
        trim_start(s.drop_first())
    } else {
        s
    }
}

/// `s` without the white space it ends with.
pub open spec fn trim_end(s: Seq<char>) -> Seq<char>
    decreases s.len(),
{
    if s.len() > 0 && is_blank(s.last()) {
        trim_end(s.drop_last())
    } else {
        s
    }
}

/// `s` without the white space at either end.
pub open spec fn trimmed(s: Seq<char>) -> Seq<char> {
    trim_end(trim_start(s))
}

/// `c` is one of the digits `0` to `9`.
pub open spec fn is_digit(c: char) -> bool {
    0x30 <= c as u32 <= 0x39
}

/// Every character of `s` is a digit.
pub open spec fn all_digits(s: Seq<char>) -> bool {
    forall|i: int| 0 <= i < s.len() ==> is_digit(#[trigger] s[i])
}

/// The number that the digits `s` write in base ten.
pub open spec fn decimal_value(s: Seq<char>) -> int
    decreases s.len(),
{
    if s.len() == 0 {
        0
    } else {
        10 * decimal_value(s.drop_last()) + (s.last() as u32 - 0x30)
    }
}

/// The number that `s` writes without a sign, if it writes one.
pub open spec fn digits_number(s: Seq<char>) -> Option<int> {
    if s.len() > 0 && all_digits(s) {
        Some(decimal_value(s))
    } else {
        None
    }
}

/// The number that `s` writes, where only `+` is accepted as a sign.
pub open spec fn unsigned_number(s: Seq<char>) -> Option<int> {
    if s.len() > 0 && s[0] == '+' {
        digits_number(s.drop_first())
    } else {
        digits_number(s)
    }
}

/// The number that `s` writes, with `+`, `-` or no sign.
pub open spec fn signed_number(s: Seq<char>) -> Option<int> {
    if s.len() > 0 && s[0] == '-' {
        match digits_number(s.drop_first()) {
            Some(n) => Some(-n),
            None => None,
        }
    } else {
        unsigned_number(s)
    }
}

/// `n` where it is a number from `low` to `high`, and nothing otherwise.
pub open spec fn within(n: Option<int>, low: int, high: int) -> Option<int> {
    match n {
        Some(v) => if low <= v <= high {
            Some(v)
        } else {
            None
        },
        None => None,
    }
}

/// Trimming at the start drops exactly the leading run of white space.
proof fn lemma_trim_start(s: Seq<char>, k: int)
    requires
        0 <= k <= s.len(),
        forall|i: int| 0 <= i < k ==> is_blank(#[trigger] s[i]),
        k == s.len() || !is_blank(s[k]),
    ensures
        trim_start(s) == s.skip(k),
    decreases k,
{
    if k > 0 {
        lemma_trim_start(s.drop_first(), k - 1);
    }
}

/// Trimming at the end drops exactly the trailing run of white space.
proof fn lemma_trim_end(s: Seq<char>, k: int)
    requires
        0 <= k <= s.len(),
        forall|i: int| k <= i < s.len() ==> is_blank(#[trigger] s[i]),
        k == 0 || !is_blank(s[k - 1]),
    ensures
        trim_end(s) == s.take(k),
    decreases s.len() - k,
{
    if k < s.len() {
        lemma_trim_end(s.drop_last(), k);
    }
}

/// Digits never write a negative number.
proof fn lemma_decimal_value_not_negative(s: Seq<char>)
    requires
        all_digits(s),
    ensures
        0 <= decimal_value(s),
    decreases s.len(),
{
    if s.len() > 0 {
        lemma_decimal_value_not_negative(s.drop_last());
    }
}

/// A number written in digits is at least the number that any beginning of
/// it writes.
proof fn lemma_decimal_value_grows(s: Seq<char>, k: int)
    requires
        all_digits(s),
        0 <= k <= s.len(),
    ensures
        decimal_value(s.take(k)) <= decimal_value(s),
    decreases s.len(),
{
    if k == s.len() {
        assert(s.take(k) =~= s);
    } else {
        let rest = s.drop_last();
        lemma_decimal_value_grows(rest, k);
        assert(rest.take(k) =~= s.take(k));
        lemma_decimal_value_not_negative(rest);
    }
}

/// Whether `c` is white space.
pub fn blank(c: char) -> (r: bool)
    ensures
        r == is_blank(c),
{
    let u: u32 = c as u32;
    (0x09 <= u && u <= 0x0D) || u == 0x20 || u == 0x85 || u == 0xA0 || u == 0x1680 || (0x2000 <= u
        && u <= 0x200A) || u == 0x2028 || u == 0x2029 || u == 0x202F || u == 0x205F || u == 0x3000
}

/// The characters of `text`, one by one.
pub fn chars_of(text: &str) -> (chars: Vec<char>)
    ensures
        chars@ == text@,
{
    let mut chars: Vec<char> = Vec::new();
    let walk = text.chars();
    for c in it: walk
        invariant
            it.seq() == text@,
            chars@ == text@.take(it.index() as int),
    {
        chars.push(c);
    }
    chars
}

/// The part of `chars` that is left when the white space at both ends is
/// taken away.
pub fn trim(chars: &[char]) -> (kept: &[char])
    ensures
        kept@ == trimmed(chars@),
{
    let mut start: usize = 0;
    while start < chars.len() && blank(chars[start])
        invariant
            start <= chars@.len(),
            forall|i: int| 0 <= i < start ==> is_blank(#[trigger] chars@[i]),
        decreases chars.len() - start,
    {
        start += 1;
    }
    let mut end: usize = chars.len();
    while end > start && blank(chars[end - 1])
        invariant
            start <= end <= chars@.len(),
            forall|i: int| end <= i < chars@.len() ==> is_blank(#[trigger] chars@[i]),
        decreases end,
    {
        end -= 1;
    }
    proof {
        lemma_trim_start(chars@, start as int);
        lemma_trim_end(chars@.skip(start as int), end - start);
    }
    &chars[start..end]
}

/// Reads digits as a number that is at most `limit`.
fn digits_up_to(digits: &[char], limit: u64) -> (r: Option<u64>)
    requires
        limit <= u32::MAX,
    ensures
        within(digits_number(digits@), 0, limit as int) == (match r {
            Some(n) => Some(n as int),
            None => None,
        }),
{
    if digits.len() == 0 {
        return None;
    }
    let mut value: u64 = 0;
    let mut i: usize = 0;
    while i < digits.len()
        invariant
            i <= digits@.len(),
            limit <= u32::MAX,
            all_digits(digits@.take(i as int)),
            value == decimal_value(digits@.take(i as int)),
            value <= limit,
        decreases digits.len() - i,
    {
        let u: u32 = digits[i] as u32;
        if u < 0x30 || u > 0x39 {
            return None;
        }
        assert(digits@.take(i + 1).drop_last() =~= digits@.take(i as int));
        value = value * 10 + (u - 0x30) as u64;
        if value > limit {
            proof {
                if all_digits(digits@) {
                    lemma_decimal_value_grows(digits@, i + 1);
                }
            }
            return None;
        }
        i += 1;
    }
    assert(digits@.take(i as int) =~= digits@);
    Some(value)
}

/// Reads `chars` as a number without a sign or with `+`, at most `limit`.
fn unsigned_up_to(chars: &[char], limit: u64) -> (r: Option<u64>)
    requires
        limit <= u32::MAX,
    ensures
        within(unsigned_number(chars@), 0, limit as int) == (match r {
            Some(n) => Some(n as int),
            None => None,
        }),
{
    if chars.len() > 0 && chars[0] == '+' {
        digits_up_to(&chars[1..chars.len()], limit)
    } else {
        digits_up_to(chars, limit)
    }
}

/// The `u16` that `s` writes, if it writes one.
pub open spec fn written_u16(s: Seq<char>) -> Option<u16> {
    match within(unsigned_number(s), 0, u16::MAX as int) {
        Some(n) => Some(n as u16),
        None => None,
    }
}

/// The `u32` that `s` writes, if it writes one.
pub open spec fn written_u32(s: Seq<char>) -> Option<u32> {
    match within(unsigned_number(s), 0, u32::MAX as int) {
        Some(n) => Some(n as u32),
        None => None,
    }
}

/// The `i32` that `s` writes, if it writes one.
pub open spec fn written_i32(s: Seq<char>) -> Option<i32> {
    match within(signed_number(s), i32::MIN as int, i32::MAX as int) {
        Some(n) => Some(n as i32),
        None => None,
    }
}

/// Reads `chars` as a `u16`.
pub fn read_u16(chars: &[char]) -> (r: Option<u16>)
    ensures
        r == written_u16(chars@),
{
    match unsigned_up_to(chars, 0xFFFF) {
        Some(n) => Some(n as u16),
        None => None,
    }
}

/// Reads `chars` as a `u32`.
pub fn read_u32(chars: &[char]) -> (r: Option<u32>)
    ensures
        r == written_u32(chars@),
{
    match unsigned_up_to(chars, 0xFFFF_FFFF) {
        Some(n) => Some(n as u32),
        None => None,
    }
}

/// Reads `chars` as an `i32`.
pub fn read_i32(chars: &[char]) -> (r: Option<i32>)
    ensures
        r == written_i32(chars@),
{
    if chars.len() > 0 && chars[0] == '-' {
        proof {
            let rest = chars@.drop_first();
            if all_digits(rest) {
                lemma_decimal_value_not_negative(rest);
            }
        }
        match digits_up_to(&chars[1..chars.len()], 0x8000_0000) {
            Some(n) => Some((0 - n as i64) as i32),
            None => None,
        }
    } else {
        proof {
            let digits = if chars@.len() > 0 && chars@[0] == '+' {
                chars@.drop_first()
            } else {
                chars@
            };
            if all_digits(digits) {
                lemma_decimal_value_not_negative(digits);
            }
        }
        match unsigned_up_to(chars, 0x7FFF_FFFF) {
            Some(n) => Some(n as i32),
            None => None,
        }
    }
}

} // verus!
