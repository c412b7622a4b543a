//! Text helpers: comparison, trimming, character classes, and decimal numbers.

use vstd::prelude::*;

verus! {

/// `String::push` appends one character at the end.
pub assume_specification[ String::push ](s: &mut String, c: char)
    ensures
        final(s)@ == old(s)@.push(c),
;

/// Whether two texts hold the same characters.
pub fn str_eq(a: &str, b: &str) -> (res: bool)
    ensures
        res == (a@ == b@),
{
    a.to_owned() == b.to_owned()
}

// ---------------------------------------------------------------------------
// Character classes
// ---------------------------------------------------------------------------
/// The Unicode property `White_Space`.
pub open spec fn is_white_space(c: char) -> bool {
    let u = c as u32;
    ||| 0x09 <= u <= 0x0d
    ||| u == 0x20
    ||| u == 0x85
    ||| u == 0xa0
    ||| u == 0x1680
    ||| 0x2000 <= u <= 0x200a
    ||| u == 0x2028
    ||| u == 0x2029
    ||| u == 0x202f
    ||| u == 0x205f
    ||| u == 0x3000
}

/// Tests a character for the Unicode property `White_Space`.
pub fn white_space(c: char) -> (res: bool)
    ensures
        res == is_white_space(c),
{
    let u: u32 = c as u32;
    (0x09 <= u && u <= 0x0d) || u == 0x20 || u == 0x85 || u == 0xa0 || u == 0x1680 || (0x2000 <= u
        && u <= 0x200a) || u == 0x2028 || u == 0x2029 || u == 0x202f || u == 0x205f || u == 0x3000
}

/// The Unicode general category `Cc` (control codes).
pub open spec fn is_control(c: char) -> bool {
    c as u32 <= 0x1f || 0x7f <= c as u32 <= 0x9f
}

/// Tests a character for the Unicode general category `Cc`.
pub fn control(c: char) -> (res: bool)
    ensures
        res == is_control(c),
{
    let u: u32 = c as u32;
    u <= 0x1f || (0x7f <= u && u <= 0x9f)
}

// ---------------------------------------------------------------------------
// Trimming
// ---------------------------------------------------------------------------
/// A text without the white space at its two ends.
pub open spec fn trimmed(s: Seq<char>) -> Seq<char>
    decreases s.len(),
{
    if s.len() > 0 && is_white_space(s.first()) {
        trimmed(s.drop_first())
    } else if s.len() > 0 && is_white_space(s.last()) {
        trimmed(s.drop_last())
    } else {
        s
    }
}

proof fn lemma_trimmed_range(s: Seq<char>, from: int, to: int)
    requires
        0 <= from <= to <= s.len(),
        forall|i: int| 0 <= i < from ==> is_white_space(s[i]),
        forall|i: int| to <= i < s.len() ==> is_white_space(s[i]),
        from < to ==> !is_white_space(s[from]) && !is_white_space(s[to - 1]),
    ensures
        trimmed(s) == s.subrange(from, to),
    decreases s.len(),
{
    if from > 0 {
        let rest = s.drop_first();
        assert forall|i: int| 0 <= i < from - 1 implies is_white_space(rest[i]) by {
            assert(rest[i] == s[i + 1]);
        }
        assert forall|i: int| to - 1 <= i < rest.len() implies is_white_space(rest[i]) by {
            assert(rest[i] == s[i + 1]);
        }
        lemma_trimmed_range(rest, from - 1, to - 1);
        assert(rest.subrange(from - 1, to - 1) =~= s.subrange(from, to));
    } else if to < s.len() {
        if is_white_space(s.first()) {
            assert(to == 0);
            let rest = s.drop_first();
            assert forall|i: int| 0 <= i < rest.len() implies is_white_space(rest[i]) by {
                assert(rest[i] == s[i + 1]);
            }
            lemma_trimmed_range(rest, 0, 0);
            assert(rest.subrange(0, 0) =~= s.subrange(from, to));
        } else {
            lemma_trimmed_range(s.drop_last(), from, to);
            assert(s.drop_last().subrange(from, to) =~= s.subrange(from, to));
        }
    } else {
        assert(s.subrange(from, to) =~= s);
    }
}

/// The text without leading and trailing white space.
pub fn trim(s: &str) -> (res: &str)
    ensures
        res@ == trimmed(s@),
{
    let len: usize = s.unicode_len();
    let mut from: usize = 0;
    while from < len && white_space(s.get_char(from))
        invariant
            from <= len,
            len == s@.len(),
            forall|i: int| 0 <= i < from ==> is_white_space(s@[i]),
        decreases len - from,
    {
        from = from + 1;
    }
    let mut to: usize = len;
    while to > from && white_space(s.get_char(to - 1))
        invariant
            from <= to <= len,
            len == s@.len(),
            forall|i: int| to <= i < len ==> is_white_space(s@[i]),
        decreases to - from,
    {
        to = to - 1;
    }
    proof {
        lemma_trimmed_range(s@, from as int, to as int);
    }
    s.substring_char(from, to)
}

/// The characters that are white space, and those that are control characters,
/// by their numbers.
pub proof fn law_characters(c: char)
    ensures
        is_white_space(c) <==> (9 <= c as u32 && c as u32 <= 13) || c as u32 == 32 || c as u32
            == 133 || c as u32 == 160 || c as u32 == 5760 || (8192 <= c as u32 && c as u32 <= 8202)
            || c as u32 == 8232 || c as u32 == 8233 || c as u32 == 8239 || c as u32 == 8287
            || c as u32 == 12288,
        is_control(c) <==> c as u32 <= 31 || (127 <= c as u32 && c as u32 <= 159),
{
}

/// Trimming takes white space away at the two ends and nothing else: what is left
/// is a stretch of the text with white space only before and after it, and with
/// none at its own ends.
pub proof fn law_trimmed(s: Seq<char>) -> (range: (int, int))
    ensures
        0 <= range.0 <= range.1 <= s.len(),
        trimmed(s) == s.subrange(range.0, range.1),
        forall|i: int| 0 <= i < range.0 ==> is_white_space(#[trigger] s[i]),
        forall|i: int| range.1 <= i < s.len() ==> is_white_space(#[trigger] s[i]),
        range.0 < range.1 ==> !is_white_space(s[range.0]) && !is_white_space(s[range.1 - 1]),
    decreases s.len(),
{
    if s.len() > 0 && is_white_space(s.first()) {
        let rest = s.drop_first();
        let (from, to) = law_trimmed(rest);
        assert(rest.subrange(from, to) =~= s.subrange(from + 1, to + 1));
        assert forall|i: int| 0 <= i < from + 1 implies is_white_space(#[trigger] s[i]) by {
            if i > 0 {
                assert(rest[i - 1] == s[i]);
            }
        }
        assert forall|i: int| to + 1 <= i < s.len() implies is_white_space(#[trigger] s[i]) by {
            assert(rest[i - 1] == s[i]);
        }
        (from + 1, to + 1)
    } else if s.len() > 0 && is_white_space(s.last()) {
        let rest = s.drop_last();
        let (from, to) = law_trimmed(rest);
        assert(rest.subrange(from, to) =~= s.subrange(from, to));
        assert forall|i: int| 0 <= i < from implies is_white_space(#[trigger] s[i]) by {
            assert(rest[i] == s[i]);
        }
        assert forall|i: int| to <= i < s.len() implies is_white_space(#[trigger] s[i]) by {
            if i < rest.len() {
                assert(rest[i] == s[i]);
            }
        }
        (from, to)
    } else {
        assert(s.subrange(0, s.len() as int) =~= s);
        (0, s.len() as int)
    }
}

/// Trimming reaches a fixed point at once.
pub proof fn law_trim_idempotent(s: Seq<char>)
    ensures
        trimmed(trimmed(s)) == trimmed(s),
    decreases s.len(),
{
    if s.len() > 0 && is_white_space(s.first()) {
        law_trim_idempotent(s.drop_first());
    } else if s.len() > 0 && is_white_space(s.last()) {
        law_trim_idempotent(s.drop_last());
    }
}

// ---------------------------------------------------------------------------
// Decimal numbers
// ---------------------------------------------------------------------------
/// The decimal digit of a value below ten.
pub open spec fn digit_char(d: int) -> char {
    (0x30 + d) as char
}

pub open spec fn is_digit(c: char) -> bool {
    0x30 <= c as u32 <= 0x39
}

/// The value of a decimal digit.
pub open spec fn digit_value(c: char) -> int {
    c as u32 - 0x30
}

/// The shortest decimal text of a natural number.
pub open spec fn decimal(n: nat) -> Seq<char>
    decreases n,
{
    if n < 10 {
        seq![digit_char(n as int)]
    } else {
        decimal(n / 10).push(digit_char((n % 10) as int))
    }
}

/// The shortest decimal text of an integer.
pub open spec fn signed_decimal(n: int) -> Seq<char> {
    if n < 0 {
        seq!['-'] + decimal((-n) as nat)
    } else {
        decimal(n as nat)
    }
}

pub open spec fn all_digits(s: Seq<char>) -> bool {
    forall|i: int| 0 <= i < s.len() ==> is_digit(s[i])
}

/// The number that a sequence of digits denotes in base ten.
pub open spec fn digits_value(s: Seq<char>) -> int
    decreases s.len(),
{
    if s.len() == 0 {
        0
    } else {
        digits_value(s.drop_last()) * 10 + digit_value(s.last())
    }
}

/// The digits of an unsigned number: the text without an optional `+`.
pub open spec fn unsigned_digits(s: Seq<char>) -> Seq<char> {
    if s.len() > 0 && s[0] == '+' {
        s.drop_first()
    } else {
        s
    }
}

/// What an unsigned decimal text denotes: an optional `+`, then at least one
/// digit, with a value of at most `max`; nothing for any other text.
pub open spec fn unsigned_value(s: Seq<char>, max: int) -> Option<int> {
    let digits = unsigned_digits(s);
    if digits.len() > 0 && all_digits(digits) && digits_value(digits) <= max {
        Some(digits_value(digits))
    } else {
        None
    }
}

/// What a signed decimal text denotes: an optional `-` or `+`, then at least
/// one digit, with a value that 64 bits can hold.
pub open spec fn signed_value(s: Seq<char>) -> Option<int> {
    if s.len() > 0 && s[0] == '-' {
        let digits = s.drop_first();
        if digits.len() > 0 && all_digits(digits) && digits_value(digits) <= -(i64::MIN as int) {
            Some(-digits_value(digits))
        } else {
            None
        }
    } else {
        unsigned_value(s, i64::MAX as int)
    }
}

proof fn lemma_digit_roundtrip(d: int)
    requires
        0 <= d < 10,
    ensures
        is_digit(digit_char(d)),
        digit_value(digit_char(d)) == d,
        digit_char(d) != '+',
        digit_char(d) != '-',
{
}

proof fn lemma_digits_value_nonneg(s: Seq<char>)
    requires
        all_digits(s),
    ensures
        digits_value(s) >= 0,
    decreases s.len(),
{
    if s.len() > 0 {
        assert(all_digits(s.drop_last())) by {
            assert forall|i: int| 0 <= i < s.drop_last().len() implies is_digit(
                s.drop_last()[i],
            ) by {
                assert(s.drop_last()[i] == s[i]);
            }
        }
        lemma_digits_value_nonneg(s.drop_last());
    }
}

/// A number that was read is one of the range it was read for.
pub proof fn law_unsigned_value_bound(s: Seq<char>, max: int)
    ensures
        unsigned_value(s, max) matches Some(n) ==> 0 <= n <= max,
{
    if all_digits(unsigned_digits(s)) {
        lemma_digits_value_nonneg(unsigned_digits(s));
    }
}

/// The digits that come first never denote more than the whole text.
proof fn lemma_digits_value_prefix(s: Seq<char>, k: int)
    requires
        all_digits(s),
        0 <= k <= s.len(),
    ensures
        0 <= digits_value(s.take(k)) <= digits_value(s),
    decreases s.len() - k,
{
    assert(all_digits(s.take(k)));
    lemma_digits_value_nonneg(s.take(k));
    if k < s.len() {
        lemma_digits_value_prefix(s, k + 1);
        assert(s.take(k + 1).drop_last() =~= s.take(k));
        assert(s.take(k + 1).last() == s[k]);
    } else {
        assert(s.take(k) =~= s);
    }
}

/// The decimal text of a number consists of digits and denotes that number.
pub proof fn law_decimal_digits(n: nat)
    ensures
        decimal(n).len() > 0,
        all_digits(decimal(n)),
        digits_value(decimal(n)) == n,
    decreases n,
{
    if n < 10 {
        lemma_digit_roundtrip(n as int);
        let s = decimal(n);
        assert(s.drop_last() =~= Seq::<char>::empty());
        assert(digits_value(s.drop_last()) == 0);
    } else {
        law_decimal_digits(n / 10);
        lemma_digit_roundtrip((n % 10) as int);
        let s = decimal(n);
        assert(s.drop_last() =~= decimal(n / 10));
    }
}

/// Reading the decimal text of a number gives the number back.
pub proof fn law_decimal_roundtrip(n: nat, max: int)
    requires
        n <= max,
    ensures
        unsigned_value(decimal(n), max) == Some(n as int),
{
    law_decimal_digits(n);
    assert(is_digit(decimal(n)[0]));
    assert(unsigned_digits(decimal(n)) == decimal(n));
}

/// Reading the decimal text of a 64-bit integer gives the integer back.
pub proof fn law_signed_decimal_roundtrip(n: int)
    requires
        i64::MIN <= n <= i64::MAX,
    ensures
        signed_value(signed_decimal(n)) == Some(n),
{
    if n < 0 {
        law_decimal_digits((-n) as nat);
        assert(signed_decimal(n).drop_first() =~= decimal((-n) as nat));
    } else {
        law_decimal_digits(n as nat);
        assert(is_digit(decimal(n as nat)[0]));
        law_decimal_roundtrip(n as nat, i64::MAX as int);
    }
}

/// Different numbers have different decimal texts.
pub proof fn law_decimal_injective(a: nat, b: nat)
    ensures
        decimal(a) == decimal(b) ==> a == b,
{
    law_decimal_digits(a);
    law_decimal_digits(b);
}

fn digit_of(d: u64) -> (c: char)
    requires
        d < 10,
    ensures
        c == digit_char(d as int),
{
    match d {
        0 => '0',
        1 => '1',
        2 => '2',
        3 => '3',
        4 => '4',
        5 => '5',
        6 => '6',
        7 => '7',
        8 => '8',
        _ => '9',
    }
}

/// The decimal text of an unsigned number.
pub fn u64_text(n: u64) -> (res: String)
    ensures
        res@ == decimal(n as nat),
    decreases n,
{
    let mut s: String = if n < 10 {
        String::new()
    } else {
        u64_text(n / 10)
    };
    s.push(digit_of(n % 10));
    assert(n < 10 ==> s@ =~= seq![digit_char(n as int)]);
    s
}

/// The decimal text of a 32-bit unsigned number.
pub fn u32_text(n: u32) -> (res: String)
    ensures
        res@ == decimal(n as nat),
{
    u64_text(n as u64)
}

/// The decimal text of a 16-bit unsigned number.
pub fn u16_text(n: u16) -> (res: String)
    ensures
        res@ == decimal(n as nat),
{
    u64_text(n as u64)
}

/// The decimal text of a signed number.
pub fn i64_text(n: i64) -> (res: String)
    ensures
        res@ == signed_decimal(n as int),
{
    if n < 0 {
        let magnitude: u64 = (-(n as i128)) as u64;
        let digits: String = u64_text(magnitude);
        let res: String = "-".to_owned().concat(digits.as_str());
        proof {
            reveal_strlit("-");
            assert("-"@ =~= seq!['-']);
        }
        res
    } else {
        u64_text(n as u64)
    }
}

/// Reads the digits of `s` from index `from` on, with a value of at most `max`.
fn parse_digits(s: &str, from: usize, max: u64) -> (res: Option<u64>)
    requires
        from <= s@.len(),
    ensures
        ({
            let digits = s@.skip(from as int);
            if digits.len() > 0 && all_digits(digits) && digits_value(digits) <= max {
                res is Some && res->0 == digits_value(digits)
            } else {
                res is None
            }
        }),
{
    let len: usize = s.unicode_len();
    let ghost digits = s@.skip(from as int);
    if from == len {
        return None;
    }
    let mut value: u64 = 0;
    let mut i: usize = from;
    assert(digits.take(0) =~= Seq::<char>::empty());
    while i < len
        invariant
            from <= i <= len,
            len == s@.len(),
            digits == s@.skip(from as int),
            value <= max,
            forall|j: int| 0 <= j < i - from ==> is_digit(digits[j]),
            value == digits_value(digits.take(i - from)),
        decreases len - i,
    {
        let c: char = s.get_char(i);
        assert(digits[i - from] == c);
        let u: u32 = c as u32;
        if u < 0x30 || u > 0x39 {
            assert(!is_digit(digits[i - from]));
            return None;
        }
        let d: u64 = (u - 0x30) as u64;
        let ghost k = i - from;
        proof {
            assert(digits.take(k + 1).drop_last() =~= digits.take(k));
            assert(digits.take(k + 1).last() == c);
        }
        let next: u128 = value as u128 * 10 + d as u128;
        if next > max as u128 {
            proof {
                if all_digits(digits) {
                    lemma_digits_value_prefix(digits, k + 1);
                }
            }
            return None;
        }
        value = next as u64;
        i = i + 1;
    }
    assert(digits.take(len - from) =~= digits);
    Some(value)
}

fn parse_unsigned(s: &str, max: u64) -> (res: Option<u64>)
    ensures
        res is Some <==> unsigned_value(s@, max as int) is Some,
        res is Some ==> res->0 == unsigned_value(s@, max as int)->0,
{
    let plus: bool = s.unicode_len() > 0 && s.get_char(0) == '+';
    assert(s@.skip(1) =~= s@.drop_first() || s@.len() == 0);
    assert(s@.skip(0) =~= s@);
    parse_digits(
        s,
        if plus {
            1
        } else {
            0
        },
        max,
    )
}

/// Reads an unsigned decimal text as a 16-bit number.
pub fn parse_u16(s: &str) -> (res: Option<u16>)
    ensures
        res is Some <==> unsigned_value(s@, u16::MAX as int) is Some,
        res is Some ==> res->0 == unsigned_value(s@, u16::MAX as int)->0,
{
    match parse_unsigned(s, u16::MAX as u64) {
        Some(v) => Some(v as u16),
        None => None,
    }
}

/// Reads an unsigned decimal text as a 32-bit number.
pub fn parse_u32(s: &str) -> (res: Option<u32>)
    ensures
        res is Some <==> unsigned_value(s@, u32::MAX as int) is Some,
        res is Some ==> res->0 == unsigned_value(s@, u32::MAX as int)->0,
{
    match parse_unsigned(s, u32::MAX as u64) {
        Some(v) => Some(v as u32),
        None => None,
    }
}

/// Reads a signed decimal text as a 64-bit number.
pub fn parse_i64(s: &str) -> (res: Option<i64>)
    ensures
        res is Some <==> signed_value(s@) is Some,
        res is Some ==> res->0 == signed_value(s@)->0,
{
    if s.unicode_len() > 0 && s.get_char(0) == '-' {
        assert(s@.skip(1) =~= s@.drop_first());
        match parse_digits(s, 1, 0x8000_0000_0000_0000) {
            Some(v) => {
                let negated: i128 = -(v as i128);
                Some(negated as i64)
            },
            None => None,
        }
    } else {
        match parse_unsigned(s, i64::MAX as u64) {
            Some(v) => Some(v as i64),
            None => None,
        }
    }
}

/// A decimal text with zeros in front up to a width.
pub open spec fn zero_padded(n: nat, width: nat) -> Seq<char> {
    let digits = decimal(n);
    Seq::new(
        if digits.len() < width {
            (width - digits.len()) as nat
        } else {
            0
        },
        |i: int| '0',
    ) + digits
}

/// The decimal text of a number with zeros in front up to three digits.
pub fn three_digit_text(n: u32) -> (res: String)
    ensures
        res@ == zero_padded(n as nat, 3),
{
    let digits: String = u32_text(n);
    let width: usize = digits.as_str().unicode_len();
    let mut res: String = String::new();
    let mut i: usize = width;
    while i < 3
        invariant
            width == digits@.len(),
            width <= i,
            i <= 3 || i == width,
            res@ == Seq::new((i - width) as nat, |j: int| '0'),
        decreases 3 - i,
    {
        res.push('0');
        i = i + 1;
        assert(res@ =~= Seq::new((i - width) as nat, |j: int| '0'));
    }
    let out: String = res.concat(digits.as_str());
    assert(out@ =~= zero_padded(n as nat, 3));
    out
}

/// How numbers are written: a digit stands for itself, and a further digit is
/// written behind the others. A negative number has a minus sign in front.
pub proof fn law_decimal(n: nat, d: int)
    requires
        0 <= d < 10,
    ensures
        decimal(d as nat).len() == 1 && decimal(d as nat)[0] as u32 == 48 + d,
        n > 0 ==> decimal((10 * n + d) as nat) == decimal(n) + decimal(d as nat),
        n > 0 ==> signed_decimal(-(n as int)) == seq!['-'] + decimal(n),
        signed_decimal(n as int) == decimal(n),
{
    let m = (10 * n + d) as nat;
    if n > 0 {
        assert(m / 10 == n && m % 10 == d);
        assert(decimal(m) =~= decimal(n) + decimal(d as nat));
    }
}

/// How numbers are read: nothing is no number, one digit is its value, and a
/// further digit counts ten times the rest and itself. A plus sign in front does
/// not matter, and any other character spoils it.
pub proof fn law_unsigned_value(s: Seq<char>, c: char, d: int, max: int)
    requires
        0 <= d < 10,
        c as u32 == 48 + d,
    ensures
        unsigned_value(Seq::empty(), max) is None,
        unsigned_value(seq!['+'], max) is None,
        unsigned_value(seq![c], max) == if d <= max {
            Some(d)
        } else {
            None
        },
        all_digits(s) && s.len() > 0 ==> unsigned_value(s.push(c), max) == if digits_value(s) * 10
            + d <= max {
            Some(digits_value(s) * 10 + d)
        } else {
            None
        },
        all_digits(s) && s.len() > 0 && digits_value(s) <= max ==> unsigned_value(s, max) == Some(
            digits_value(s),
        ) && unsigned_value(seq!['+'] + s, max) == Some(digits_value(s)),
        s.len() > 0 && !(48 <= s.last() as u32 && s.last() as u32 <= 57) ==> unsigned_value(s, max)
            is None,
{
    assert(seq!['+'].drop_first() =~= Seq::empty());
    let one = seq![c];
    assert(one.drop_last() =~= Seq::empty());
    assert(digits_value(one.drop_last()) == 0);
    assert(digits_value(one) == d);
    if all_digits(s) && s.len() > 0 {
        assert(is_digit(s[0]));
        assert(s.push(c).drop_last() =~= s);
        assert(s.push(c)[0] == s[0]);
        assert((seq!['+'] + s).drop_first() =~= s);
        assert(all_digits(s.push(c)));
    }
    if s.len() > 0 && !is_digit(s.last()) {
        let digits = unsigned_digits(s);
        if digits.len() > 0 {
            assert(digits[digits.len() - 1] == s.last());
        }
    }
}

/// A number of some width has at least as many characters: its digits, behind as
/// many zeros as are wanting.
pub proof fn law_zero_padded(n: nat, width: nat, i: int)
    ensures
        ({
            let text = zero_padded(n, width);
            let digits = decimal(n);
            &&& text.len() == if digits.len() < width {
                width
            } else {
                digits.len()
            }
            &&& text.subrange(text.len() - digits.len(), text.len() as int) == digits
            &&& 0 <= i < text.len() - digits.len() ==> text[i] == '0'
        }),
{
    let text = zero_padded(n, width);
    let digits = decimal(n);
    assert(text.subrange(text.len() - digits.len(), text.len() as int) =~= digits);
}

/// A setting that is given counts, and one that is not has its default; so does a
/// number that cannot be read.
pub proof fn law_settings(given: String, default: Seq<char>, max: int, number: int)
    ensures
        text_or(Some(given), default) == given@,
        text_or(None, default) == default,
        number_or(None, max, number) == number,
        unsigned_value(given@, max) matches Some(n) ==> number_or(Some(given), max, number) == n,
        unsigned_value(given@, max) is None ==> number_or(Some(given), max, number) == number,
        opt_text(Some(given)) == Some(given@),
        opt_text(None) is None,
{
}

// ---------------------------------------------------------------------------
// Lists of texts
// ---------------------------------------------------------------------------
/// The characters of each text of a list.
pub open spec fn texts(v: Seq<String>) -> Seq<Seq<char>> {
    v.map_values(|s: String| s@)
}

/// The characters of each name and value of a list of pairs.
pub open spec fn pairs(v: Seq<(String, String)>) -> Seq<(Seq<char>, Seq<char>)> {
    v.map_values(|p: (String, String)| (p.0@, p.1@))
}

/// The characters of an optional text.
pub open spec fn opt_text(o: Option<String>) -> Option<Seq<char>> {
    match o {
        Some(s) => Some(s@),
        None => None,
    }
}

/// A sign changes the sign of a number and nothing else; without a `-` a text
/// is read as one without a sign is.
pub proof fn law_signed_value(n: nat, s: Seq<char>)
    requires
        n <= i64::MAX,
    ensures
        signed_value(decimal(n)) == Some(n as int),
        signed_value(seq!['-'] + decimal(n)) == Some(-(n as int)),
        signed_value(seq!['-']) is None,
        s.len() == 0 ==> signed_value(s) is None,
        s.len() > 0 && s[0] != '-' ==> signed_value(s) == unsigned_value(s, i64::MAX as int),
{
    law_decimal_roundtrip(n, i64::MAX as int);
    law_signed_decimal_roundtrip(n as int);
    law_decimal_digits(n);
    assert((seq!['-'] + decimal(n)).drop_first() =~= decimal(n));
    assert(seq!['-'].drop_first() =~= Seq::<char>::empty());
}

/// An optional text, or a default where there is none.
pub open spec fn text_or(o: Option<String>, default: Seq<char>) -> Seq<char> {
    match o {
        Some(s) => s@,
        None => default,
    }
}

/// The text if there is one, else the default.
pub fn or_default(o: Option<String>, default: &str) -> (res: String)
    ensures
        res@ == text_or(o, default@),
{
    match o {
        Some(s) => s,
        None => default.to_owned(),
    }
}

/// A number from a setting; the default where it is missing or no number up to
/// the given one.
pub open spec fn number_or(o: Option<String>, max: int, default: int) -> int {
    match o {
        Some(s) => match unsigned_value(s@, max) {
            Some(n) => n,
            None => default,
        },
        None => default,
    }
}

/// A 16-bit number from a setting.
pub fn u16_or(o: Option<String>, default: u16) -> (res: u16)
    ensures
        res == number_or(o, u16::MAX as int, default as int),
{
    match o {
        Some(s) => match parse_u16(s.as_str()) {
            Some(n) => n,
            None => default,
        },
        None => default,
    }
}

/// A 32-bit number from a setting.
pub fn u32_or(o: Option<String>, default: u32) -> (res: u32)
    ensures
        res == number_or(o, u32::MAX as int, default as int),
{
    match o {
        Some(s) => match parse_u32(s.as_str()) {
            Some(n) => n,
            None => default,
        },
        None => default,
    }
}

} // verus!
