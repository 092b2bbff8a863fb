//! Decimal and hexadecimal notation of integers.

use vstd::prelude::*;

use crate::text;

verus! {

// ---------------------------------------------------------------------------
// Writing
// ---------------------------------------------------------------------------

/// The character for a digit value below ten.
pub open spec fn digit_char(d: nat) -> char {
    (48 + d) as char
}

/// The decimal digits of a natural number, most significant first, without leading zeros.
pub open spec fn digits(n: nat) -> Seq<char>
    decreases n,
{
    if n < 10 {
        seq![digit_char(n)]
    } else {
        digits(n / 10).push(digit_char(n % 10))
    }
}

/// The decimal notation of an integer.
pub open spec fn decimal(n: int) -> Seq<char> {
    if n < 0 {
        seq!['-'] + digits((-n) as nat)
    } else {
        digits(n as nat)
    }
}

/// `n` in decimal notation.
pub fn decimal_u64(n: u64) -> (r: String)
    ensures
        r@ == decimal(n as int),
    decreases n,
{
    let d: u8 = (n % 10) as u8;
    let mut out = if n < 10 {
        String::new()
    } else {
        decimal_u64(n / 10)
    };
    out.push((48 + d) as char);
    assert(n < 10 ==> out@ =~= seq![digit_char(n as nat)]);
    out
}

/// `n` in decimal notation.
pub fn decimal_usize(n: usize) -> (r: String)
    ensures
        r@ == decimal(n as int),
{
    decimal_u64(n as u64)
}

/// `n` in decimal notation.
pub fn decimal_i64(n: i64) -> (r: String)
    ensures
        r@ == decimal(n as int),
{
    if n >= 0 {
        decimal_u64(n as u64)
    } else {
        let magnitude: u64 = if n == i64::MIN {
            0x8000_0000_0000_0000u64
        } else {
            (-n) as u64
        };
        let body = decimal_u64(magnitude);
        let mut out = String::new();
        out.push('-');
        text::push_text(&mut out, body.as_str());
        assert(out@ =~= seq!['-'] + digits(magnitude as nat));
        out
    }
}

// ---------------------------------------------------------------------------
// Reading
// ---------------------------------------------------------------------------

/// All characters are decimal digits.
pub open spec fn all_digits(s: Seq<char>) -> bool {
    forall|i: int| 0 <= i < s.len() ==> text::is_digit(#[trigger] s[i])
}

/// The value of a digit character.
pub open spec fn digit_value(c: char) -> nat {
    (c as u32 - 48) as nat
}

/// The number written by a sequence of digits.
pub open spec fn digits_value(s: Seq<char>) -> nat
    decreases s.len(),
{
    if s.len() == 0 {
        0
    } else {
        digits_value(s.drop_last()) * 10 + digit_value(s.last())
    }
}

/// A text without one leading `+`.
pub open spec fn without_plus(s: Seq<char>) -> Seq<char> {
    if s.len() > 0 && s[0] == '+' {
        s.subrange(1, s.len() as int)
    } else {
        s
    }
}

/// The number a text denotes as an unsigned integer of at most `max`: an optional `+`, then
/// one or more digits.
pub open spec fn unsigned(s: Seq<char>, max: nat) -> Option<nat> {
    let body = without_plus(s);
    if body.len() > 0 && all_digits(body) && digits_value(body) <= max {
        Some(digits_value(body))
    } else {
        None
    }
}

/// The number a text denotes as a signed 64-bit integer: an optional `+` or `-`, then one or
/// more digits.
pub open spec fn signed(s: Seq<char>) -> Option<int> {
    if s.len() > 0 && s[0] == '-' {
        let body = s.subrange(1, s.len() as int);
        if body.len() > 0 && all_digits(body) && -(digits_value(body) as int) >= i64::MIN {
            Some(-(digits_value(body) as int))
        } else {
            None
        }
    } else {
        match unsigned(s, i64::MAX as nat) {
            Some(n) => Some(n as int),
            None => None,
        }
    }
}

/// A longer run of digits denotes no smaller number.
proof fn lemma_digits_value_prefix(s: Seq<char>, i: int)
    requires
        0 <= i <= s.len(),
    ensures
        digits_value(s.take(i)) <= digits_value(s),
    decreases s.len() - i,
{
    if i < s.len() {
        lemma_digits_value_prefix(s, i + 1);
        assert(s.take(i + 1).drop_last() =~= s.take(i));
    } else {
        assert(s.take(i) =~= s);
    }
}

/// The value of `chars[from..]` as a run of digits, if it is one and is at most `max`.
pub(crate) fn run_of_digits(chars: &Vec<char>, from: usize, max: u64) -> (r: Option<u64>)
    requires
        from <= chars@.len(),
    ensures
        ({
            let body = chars@.subrange(from as int, chars@.len() as int);
            match r {
                Some(n) => body.len() > 0 && all_digits(body) && digits_value(body) == n && n
                    <= max,
                None => !(body.len() > 0 && all_digits(body) && digits_value(body) <= max),
            }
        }),
{
    let ghost body = chars@.subrange(from as int, chars@.len() as int);
    if from == chars.len() {
        return None;
    }
    let mut value: u64 = 0;
    let mut i: usize = from;
    while i < chars.len()
        invariant
            from <= i <= chars@.len(),
            body == chars@.subrange(from as int, chars@.len() as int),
            all_digits(body.take(i - from)),
            value == digits_value(body.take(i - from)),
            value <= max,
        decreases chars.len() - i,
    {
        let c = chars[i];
        assert(body[i - from] == c);
        if !text::digit(c) {
            return None;
        }
        let d: u64 = (c as u32 - 48) as u64;
        assert(body.take(i - from + 1).drop_last() =~= body.take(i - from));
        let next: u128 = value as u128 * 10 + d as u128;
        proof {
            lemma_digits_value_prefix(body, i - from + 1);
        }
        if next > max as u128 {
            return None;
        }
        value = next as u64;
        i = i + 1;
    }
    assert(body.take(i - from) =~= body);
    Some(value)
}

/// The number the text denotes as an unsigned integer of at most `max`.
pub fn parse_unsigned(s: &str, max: u64) -> (r: Option<u64>)
    ensures
        match r {
            Some(n) => unsigned(s@, max as nat) == Some(n as nat),
            None => unsigned(s@, max as nat) is None,
        },
{
    let chars = text::chars_of(s);
    let from: usize = if chars.len() > 0 && chars[0] == '+' {
        1
    } else {
        0
    };
    assert(without_plus(s@) =~= chars@.subrange(from as int, chars@.len() as int));
    run_of_digits(&chars, from, max)
}

/// The number the text denotes as a signed 64-bit integer.
pub fn parse_signed(s: &str) -> (r: Option<i64>)
    ensures
        match r {
            Some(n) => signed(s@) == Some(n as int),
            None => signed(s@) is None,
        },
{
    let chars = text::chars_of(s);
    if chars.len() > 0 && chars[0] == '-' {
        match run_of_digits(&chars, 1, 0x8000_0000_0000_0000u64) {
            Some(n) => {
                if n == 0x8000_0000_0000_0000u64 {
                    Some(i64::MIN)
                } else {
                    Some(-(n as i64))
                }
            },
            None => None,
        }
    } else {
        match parse_unsigned(s, 0x7fff_ffff_ffff_ffffu64) {
            Some(n) => Some(n as i64),
            None => None,
        }
    }
}

// ---------------------------------------------------------------------------
// Reading undoes writing
// ---------------------------------------------------------------------------

/// The digits of a number are digits and denote it.
pub proof fn lemma_digits_denote(n: nat)
    ensures
        digits(n).len() > 0,
        all_digits(digits(n)),
        digits_value(digits(n)) == n,
    decreases n,
{
    reveal_with_fuel(digits_value, 2);
    if n < 10 {
        assert(digits(n).drop_last() =~= Seq::<char>::empty());
    } else {
        lemma_digits_denote(n / 10);
        assert(digits(n).drop_last() =~= digits(n / 10));
        assert(digits(n).last() == digit_char(n % 10));
    }
}

/// Reading a decimal notation gives back the number: unsigned.
pub proof fn law_unsigned_reads_decimal(n: nat, max: nat)
    requires
        n <= max,
    ensures
        unsigned(decimal(n as int), max) == Some(n),
{
    lemma_digits_denote(n);
    assert(text::is_digit(digits(n)[0]));
}

/// Reading a decimal notation gives back the number: signed.
pub proof fn law_signed_reads_decimal(n: int)
    requires
        i64::MIN <= n <= i64::MAX,
    ensures
        signed(decimal(n)) == Some(n),
{
    if n < 0 {
        lemma_digits_denote((-n) as nat);
        let s = decimal(n);
        assert(s.subrange(1, s.len() as int) =~= digits((-n) as nat));
    } else {
        law_unsigned_reads_decimal(n as nat, i64::MAX as nat);
        lemma_digits_denote(n as nat);
        assert(text::is_digit(digits(n as nat)[0]));
    }
}

/// A notation is the shortest: it has no zero at its start but for zero itself, and no sign but
/// that of a negative number.
pub proof fn law_decimal_is_the_shortest(n: int)
    ensures
        n > 0 ==> '1' <= decimal(n)[0] <= '9',
        n == 0 ==> decimal(n) == seq!['0'],
        n < 0 ==> decimal(n)[0] == '-' && '1' <= decimal(n)[1] <= '9',
        n < 0 ==> decimal(n).skip(1) == decimal(-n),
{
    if n > 0 {
        lemma_first_digit(n as nat);
    } else if n < 0 {
        lemma_first_digit((-n) as nat);
        assert(decimal(n).skip(1) =~= decimal(-n));
        assert(decimal(n)[1] == digits((-n) as nat)[0]);
    }
}

proof fn lemma_first_digit(n: nat)
    requires
        n > 0,
    ensures
        digits(n).len() > 0,
        '1' <= digits(n)[0] <= '9',
    decreases n,
{
    if n >= 10 {
        lemma_first_digit(n / 10);
        assert(digits(n)[0] == digits(n / 10)[0]);
    }
}

/// Only what is written in decimal digits is read as a number, with one sign before them at most; a
/// number over the limit is not read. A minus sign makes a number negative, and a plus sign changes
/// nothing.
pub proof fn law_only_decimal_digits_are_read(s: Seq<char>, max: nat)
    ensures
        unsigned(s, max) matches Some(n) ==> n <= max,
        unsigned(s, max) is Some ==> s.len() > 0 && (forall|i: int|
            0 <= i < s.len() ==> '0' <= #[trigger] s[i] <= '9' || (i == 0 && s[0] == '+' && s.len()
                > 1)),
        signed(s) matches Some(n) ==> i64::MIN <= n <= i64::MAX,
        signed(s) is Some ==> s.len() > 0 && (forall|i: int|
            0 <= i < s.len() ==> '0' <= #[trigger] s[i] <= '9' || (i == 0 && (s[0] == '+' || s[0]
                == '-') && s.len() > 1)),
        s.len() > 0 && '0' <= s[0] <= '9' ==> unsigned(seq!['+'] + s, max) == unsigned(s, max),
        s.len() > 0 && '0' <= s[0] <= '9' && signed(s) is Some ==> signed(seq!['-'] + s) == Some(
            -signed(s)->0,
        ),
{
    let body = without_plus(s);
    if unsigned(s, max) is Some || unsigned(s, i64::MAX as nat) is Some {
        assert forall|i: int| 0 <= i < s.len() implies '0' <= #[trigger] s[i] <= '9' || (i == 0
            && s[0] == '+' && s.len() > 1) by {
            if s[0] == '+' {
                if i > 0 {
                    assert(body[i - 1] == s[i]);
                }
            } else {
                assert(body[i] == s[i]);
            }
        }
    }
    if signed(s) is Some && s[0] == '-' {
        let rest = s.subrange(1, s.len() as int);
        assert forall|i: int| 0 <= i < s.len() implies '0' <= #[trigger] s[i] <= '9' || (i == 0
            && (s[0] == '+' || s[0] == '-') && s.len() > 1) by {
            if i > 0 {
                assert(rest[i - 1] == s[i]);
            }
        }
    }
    if s.len() > 0 && '0' <= s[0] <= '9' {
        assert(without_plus(seq!['+'] + s) =~= s);
        let minus = seq!['-'] + s;
        assert(minus.subrange(1, minus.len() as int) =~= s);
    }
}

/// Each digit counts ten times the next: a number followed by another is the first times ten for
/// each digit of the second, and the second.
pub proof fn law_digits_count_by_place(a: Seq<char>, d: char)
    requires
        all_digits(a),
        '0' <= d <= '9',
    ensures
        digits_value(a.push(d)) == 10 * digits_value(a) + (d as u32 - '0' as u32),
{
    assert(a.push(d).drop_last() =~= a);
}

} // verus!
