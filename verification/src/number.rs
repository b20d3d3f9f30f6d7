//! Whole numbers written in decimal or hexadecimal.

use crate::text::chars_of;
use vstd::arithmetic::power::pow;
use vstd::prelude::*;
use vstd::string::StringExecFns;

verus! {

/// What the character stands for as a digit in base `radix` (at most sixteen), in either case.
pub open spec fn digit_of(c: char, radix: nat) -> Option<nat> {
    let value = if '0' <= c <= '9' {
        (c as int - '0' as int) as nat
    } else if 'a' <= c <= 'f' {
        (c as int - 'a' as int + 10) as nat
    } else if 'A' <= c <= 'F' {
        (c as int - 'A' as int + 10) as nat
    } else {
        16
    };
    if value < radix && value < 16 {
        Some(value)
    } else {
        None
    }
}

/// The number that a run of digits stands for; `None` where one of them is no digit.
pub open spec fn digits_value(s: Seq<char>, radix: nat) -> Option<nat>
    decreases s.len(),
{
    if s.len() == 0 {
        Some(0)
    } else {
        match (digits_value(s.drop_last(), radix), digit_of(s.last(), radix)) {
            (Some(high), Some(low)) => Some(high * radix + low),
            _ => None,
        }
    }
}

/// Whether the text opens with a minus sign that a signed number may have.
pub open spec fn is_negative(s: Seq<char>, signed: bool) -> bool {
    s.len() > 0 && s[0] == '-' && signed
}

/// The text without its sign. Every number may have a plus sign.
pub open spec fn unsigned_part(s: Seq<char>, signed: bool) -> Seq<char> {
    if is_negative(s, signed) || (s.len() > 0 && s[0] == '+') {
        s.skip(1)
    } else {
        s
    }
}

/// The number that `s` stands for in base `radix`: an optional sign, then one digit or more,
/// with nothing else around them, and a value from `lo` to `hi`.
pub open spec fn number_in(s: Seq<char>, radix: nat, signed: bool, lo: int, hi: int) -> Option<int> {
    let digits = unsigned_part(s, signed);
    match digits_value(digits, radix) {
        Some(magnitude) => {
            let value = if is_negative(s, signed) {
                -(magnitude as int)
            } else {
                magnitude as int
            };
            if digits.len() > 0 && lo <= value <= hi {
                Some(value)
            } else {
                None
            }
        },
        None => None,
    }
}

/// The value of a longer run of digits is never below that of its beginning.
proof fn digits_value_grows(s: Seq<char>, n: int, radix: nat)
    requires
        0 <= n <= s.len(),
        radix >= 1,
        digits_value(s, radix) is Some,
    ensures
        digits_value(s.take(n), radix) is Some,
        digits_value(s.take(n), radix)->0 <= digits_value(s, radix)->0,
    decreases s.len() - n,
{
    if n == s.len() {
        assert(s.take(n) =~= s);
    } else {
        digits_value_grows(s, n + 1, radix);
        let longer = s.take(n + 1);
        assert(longer.drop_last() =~= s.take(n));
        let high = digits_value(longer.drop_last(), radix)->0;
        assert(high <= high * radix) by (nonlinear_arith)
            requires
                radix >= 1,
        ;
    }
}

/// The digit that `c` is in base `radix`.
fn digit(c: char, radix: u32) -> (r: Option<u32>)
    requires
        2 <= radix <= 16,
    ensures
        r matches Some(d) ==> digit_of(c, radix as nat) == Some(d as nat),
        r is None ==> digit_of(c, radix as nat) is None,
{
    let code: u32 = c as u32;
    let value: u32 = if '0' <= c && c <= '9' {
        code - 48
    } else if 'a' <= c && c <= 'f' {
        code - 97 + 10
    } else if 'A' <= c && c <= 'F' {
        code - 65 + 10
    } else {
        16
    };
    if value < radix {
        Some(value)
    } else {
        None
    }
}

/// Reads the digits of `chars` from `start` on; `None` where one is no digit, or where the
/// number they make is above `limit`.
fn parse_digits(chars: &Vec<char>, start: usize, radix: u32, limit: u64) -> (r: Option<u64>)
    requires
        start <= chars.len(),
        2 <= radix <= 16,
    ensures
        r matches Some(v) ==> v <= limit && digits_value(
            chars@.skip(start as int),
            radix as nat,
        ) == Some(v as nat),
        r is None ==> (digits_value(chars@.skip(start as int), radix as nat) matches Some(v) ==> v
            > limit),
{
    let ghost all = chars@.skip(start as int);
    let ghost base = radix as nat;
    let mut value: u64 = 0;
    let mut i: usize = start;
    while i < chars.len()
        invariant
            start <= i <= chars.len(),
            2 <= radix <= 16,
            base == radix as nat,
            all == chars@.skip(start as int),
            value <= limit,
            digits_value(all.take(i - start), base) == Some(value as nat),
        decreases chars.len() - i,
    {
        proof {
            assert(all.take(i + 1 - start).drop_last() =~= all.take(i - start));
            assert(all.take(i + 1 - start).last() == chars@[i as int]);
            if digits_value(all, base) is Some {
                digits_value_grows(all, i + 1 - start, base);
            }
        }
        match digit(chars[i], radix) {
            Some(d) => {
                assert(value * radix <= 0xffff_ffff_ffff_ffff * 16) by (nonlinear_arith)
                    requires
                        value <= 0xffff_ffff_ffff_ffff,
                        0 <= radix <= 16,
                ;
                let next: u128 = value as u128 * radix as u128 + d as u128;
                if next > limit as u128 {
                    return None;
                }
                value = next as u64;
            },
            None => {
                return None;
            },
        }
        i += 1;
    }
    assert(all.take(chars.len() - start) =~= all);
    Some(value)
}

/// Reads `s` as a signed number in base ten.
pub fn parse_i64(s: &str) -> (r: Option<i64>)
    ensures
        r matches Some(v) ==> number_in(s@, 10, true, i64::MIN as int, i64::MAX as int) == Some(
            v as int,
        ),
        r is None ==> number_in(s@, 10, true, i64::MIN as int, i64::MAX as int) is None,
{
    let chars: Vec<char> = chars_of(s);
    if chars.len() == 0 {
        return None;
    }
    let negative: bool = chars[0] == '-';
    let start: usize = if negative || chars[0] == '+' {
        1
    } else {
        0
    };
    assert(unsigned_part(s@, true) =~= s@.skip(start as int));
    if start == chars.len() {
        return None;
    }
    let limit: u64 = if negative {
        0x8000_0000_0000_0000
    } else {
        0x7fff_ffff_ffff_ffff
    };
    match parse_digits(&chars, start, 10, limit) {
        Some(v) => if !negative {
            Some(v as i64)
        } else if v == 0x8000_0000_0000_0000 {
            Some(i64::MIN)
        } else {
            Some(-(v as i64))
        },
        None => None,
    }
}

/// Reads `s` as a signed number of 32 bits in base ten.
pub fn parse_i32(s: &str) -> (r: Option<i32>)
    ensures
        r matches Some(v) ==> number_in(s@, 10, true, i32::MIN as int, i32::MAX as int) == Some(
            v as int,
        ),
        r is None ==> number_in(s@, 10, true, i32::MIN as int, i32::MAX as int) is None,
{
    match parse_i64(s) {
        Some(v) => if -0x8000_0000 <= v && v <= 0x7fff_ffff {
            Some(v as i32)
        } else {
            None
        },
        None => None,
    }
}

/// Reads `s` as an unsigned number of 32 bits in base `radix`.
pub fn parse_u32(s: &str, radix: u32) -> (r: Option<u32>)
    requires
        2 <= radix <= 16,
    ensures
        r matches Some(v) ==> number_in(s@, radix as nat, false, 0, u32::MAX as int) == Some(
            v as int,
        ),
        r is None ==> number_in(s@, radix as nat, false, 0, u32::MAX as int) is None,
{
    let chars: Vec<char> = chars_of(s);
    if chars.len() == 0 {
        return None;
    }
    let start: usize = if chars[0] == '+' {
        1
    } else {
        0
    };
    assert(unsigned_part(s@, false) =~= s@.skip(start as int));
    if start == chars.len() {
        return None;
    }
    match parse_digits(&chars, start, radix, 0xffff_ffff) {
        Some(v) => Some(v as u32),
        None => None,
    }
}

/// The digits of a number in base ten, the first of them no zero unless it is the only one.
pub open spec fn decimal_digits(n: nat) -> Seq<char>
    decreases n,
{
    let last = seq![((48 + n % 10) as u8) as char];
    if n < 10 {
        last
    } else {
        decimal_digits(n / 10) + last
    }
}

/// A number in base ten, with a minus sign where it is negative.
pub open spec fn decimal_text(n: int) -> Seq<char> {
    if n < 0 {
        seq!['-'] + decimal_digits((-n) as nat)
    } else {
        decimal_digits(n as nat)
    }
}

/// One digit.
fn digit_text(digit: u32) -> (r: &'static str)
    requires
        digit < 10,
    ensures
        r@ == decimal_digits(digit as nat),
{
    proof {
        reveal_strlit("0");
        reveal_strlit("1");
        reveal_strlit("2");
        reveal_strlit("3");
        reveal_strlit("4");
        reveal_strlit("5");
        reveal_strlit("6");
        reveal_strlit("7");
        reveal_strlit("8");
        reveal_strlit("9");
    }
    match digit {
        0 => "0",
        1 => "1",
        2 => "2",
        3 => "3",
        4 => "4",
        5 => "5",
        6 => "6",
        7 => "7",
        8 => "8",
        _ => "9",
    }
}

/// Writes the digits of a number behind a text.
fn append_digits(text: &mut String, n: u32)
    ensures
        final(text)@ == old(text)@ + decimal_digits(n as nat),
    decreases n,
{
    if n >= 10 {
        append_digits(text, n / 10);
    }
    text.append(digit_text(n % 10));
    assert(text@ =~= old(text)@ + decimal_digits(n as nat));
}

/// Writes a number in base ten behind a text.
pub fn append_decimal(text: &mut String, n: i32)
    ensures
        final(text)@ == old(text)@ + decimal_text(n as int),
{
    if n >= 0 {
        append_digits(text, n as u32);
    } else {
        proof {
            reveal_strlit("-");
        }
        text.append("-");
        append_digits(text, (-(n as i64)) as u32);
        assert(text@ =~= old(text)@ + decimal_text(n as int));
    }
}

/// The digits of a number stand for it.
proof fn digits_are_read_back(n: nat)
    ensures
        decimal_digits(n).len() > 0,
        digit_of(decimal_digits(n)[0], 10) is Some,
        digits_value(decimal_digits(n), 10) == Some(n),
    decreases n,
{
    let digits = decimal_digits(n);
    if n < 10 {
        assert(digits.drop_last() =~= Seq::empty());
        assert(digits_value(digits.drop_last(), 10) == Some(0nat));
    } else {
        digits_are_read_back(n / 10);
        assert(digits.drop_last() =~= decimal_digits(n / 10));
        assert(digits[0] == decimal_digits(n / 10)[0]);
    }
    assert(digit_of(digits.last(), 10) == Some((n % 10) as nat));
}

/// A number is read back from the text that it is written as.
pub proof fn decimal_is_read_back(n: int, lo: int, hi: int)
    requires
        lo <= n <= hi,
    ensures
        number_in(decimal_text(n), 10, true, lo, hi) == Some(n),
{
    let magnitude = if n < 0 {
        (-n) as nat
    } else {
        n as nat
    };
    digits_are_read_back(magnitude);
    if n < 0 {
        assert(decimal_text(n).skip(1) =~= decimal_digits(magnitude));
    } else {
        assert(digit_of(decimal_text(n)[0], 10) is Some);
    }
}

/// Whether `c` is how the digit `d` is written, small or large.
pub open spec fn writes_digit(c: char, d: int) -> bool {
    0 <= d < 16 && (c == "0123456789abcdef"@[d] || c == "0123456789ABCDEF"@[d])
}

/// A character is a digit exactly where it is one of those that digits are written with, and then
/// it stands for its place among them.
pub proof fn digits_stand_for_their_places(c: char, d: int, radix: nat)
    requires
        radix <= 16,
    ensures
        writes_digit(c, d) && d < radix ==> digit_of(c, radix) == Some(d as nat),
        digit_of(c, radix) == Some(d as nat) && d >= 0 ==> writes_digit(c, d) && d < radix,
        digit_of(c, radix) matches Some(v) ==> writes_digit(c, v as int) && v < radix,
{
    reveal_strlit("0123456789abcdef");
    reveal_strlit("0123456789ABCDEF");
    let places = |v: int| "0123456789abcdef"@[v] == (if v < 10 {
        (48 + v) as char
    } else {
        (87 + v) as char
    }) && "0123456789ABCDEF"@[v] == (if v < 10 {
        (48 + v) as char
    } else {
        (55 + v) as char
    });
    assert(places(0) && places(1) && places(2) && places(3) && places(4) && places(5) && places(6)
        && places(7));
    assert(places(8) && places(9) && places(10) && places(11) && places(12) && places(13)
        && places(14) && places(15));
    if 0 <= d < 16 {
        assert(places(d));
    }
    if let Some(v) = digit_of(c, radix) {
        assert(places(v as int));
    }
}

/// Digits behind others move those up by as many places, and add what they stand for themselves.
pub proof fn digits_have_place_values(high: Seq<char>, low: Seq<char>, radix: nat)
    ensures
        digits_value(high + low, radix) == (match (
            digits_value(high, radix),
            digits_value(low, radix),
        ) {
            (Some(a), Some(b)) => Some((a * pow(radix as int, low.len()) + b) as nat),
            _ => None,
        }),
        low.len() == 1 ==> digits_value(low, radix) == digit_of(low[0], radix),
        digits_value(Seq::empty(), radix) == Some(0nat),
        pow(radix as int, low.len()) >= 0,
    decreases low.len(),
{
    reveal(pow);
    if low.len() == 0 {
        assert(high + low =~= high);
    } else {
        let shorter = low.drop_last();
        digits_have_place_values(high, shorter, radix);
        assert((high + low).drop_last() =~= high + shorter);
        if low.len() == 1 {
            assert(shorter =~= Seq::empty());
            assert(digits_value(shorter, radix) == Some(0nat));
            assert(0 * radix == 0) by (nonlinear_arith);
            assert(low.last() == low[0]);
        }
        let p = pow(radix as int, shorter.len());
        assert(pow(radix as int, low.len()) == radix * p);
        assert(radix * p >= 0) by (nonlinear_arith)
            requires
                p >= 0,
        ;
        if digits_value(high, radix) is Some && digits_value(shorter, radix) is Some && digit_of(
            low.last(),
            radix,
        ) is Some {
            let a = digits_value(high, radix)->0 as int;
            let b = digits_value(shorter, radix)->0 as int;
            let c = digit_of(low.last(), radix)->0 as int;
            assert(a * p >= 0) by (nonlinear_arith)
                requires
                    a >= 0,
                    p >= 0,
            ;
            assert((a * p + b) * radix + c == a * (radix * p) + (b * radix + c))
                by (nonlinear_arith);
        }
    }
}

/// Digits are read only where every one of them is a digit.
proof fn all_digits_are_digits(s: Seq<char>, radix: nat, i: int)
    requires
        0 <= i < s.len(),
        digits_value(s, radix) is Some,
    ensures
        digit_of(s[i], radix) is Some,
    decreases s.len(),
{
    if i < s.len() - 1 {
        all_digits_are_digits(s.drop_last(), radix, i);
        assert(s.drop_last()[i] == s[i]);
    }
}

/// A sign before digits: a plus sign changes nothing, a minus sign makes a signed number negative,
/// and no unsigned number has one. A number outside the bounds is none.
pub proof fn signs_are_read(digits: Seq<char>, magnitude: nat, radix: nat, lo: int, hi: int)
    requires
        digits.len() > 0,
        digits_value(digits, radix) == Some(magnitude),
    ensures
        forall|signed: bool|
            #![trigger number_in(digits, radix, signed, lo, hi)]
            number_in(digits, radix, signed, lo, hi) == if lo <= magnitude <= hi {
                Some(magnitude as int)
            } else {
                None
            },
        forall|signed: bool|
            #![trigger number_in(seq!['+'] + digits, radix, signed, lo, hi)]
            number_in(seq!['+'] + digits, radix, signed, lo, hi) == if lo <= magnitude <= hi {
                Some(magnitude as int)
            } else {
                None
            },
        number_in(seq!['-'] + digits, radix, true, lo, hi) == if lo <= -(magnitude as int) <= hi {
            Some(-(magnitude as int))
        } else {
            None
        },
        number_in(seq!['-'] + digits, radix, false, lo, hi) is None,
{
    all_digits_are_digits(digits, radix, 0);
    assert((seq!['+'] + digits).skip(1) =~= digits);
    assert((seq!['-'] + digits).skip(1) =~= digits);
    if digits_value(seq!['-'] + digits, radix) is Some {
        all_digits_are_digits(seq!['-'] + digits, radix, 0);
    }
}

/// Nothing, a sign alone, and a text with anything but digits behind its sign are no numbers.
pub proof fn other_texts_are_no_numbers(
    s: Seq<char>,
    i: int,
    radix: nat,
    signed: bool,
    lo: int,
    hi: int,
)
    requires
        0 <= i <= s.len(),
        i == s.len() ==> i == 0 || (i == 1 && (s[0] == '+' || (s[0] == '-' && signed))),
        i < s.len() ==> digit_of(s[i], radix) is None,
        i == 0 && i < s.len() ==> s[0] != '+' && !(s[0] == '-' && signed),
    ensures
        number_in(s, radix, signed, lo, hi) is None,
{
    let digits = unsigned_part(s, signed);
    if i < s.len() && digits_value(digits, radix) is Some {
        if digits.len() == s.len() {
            all_digits_are_digits(digits, radix, i);
        } else {
            all_digits_are_digits(digits, radix, i - 1);
            assert(digits[i - 1] == s[i]);
        }
    }
}

/// A number is written with digits alone, the first of them no zero unless the number is zero; a
/// negative number is written as the positive one with a minus sign before it.
pub proof fn decimal_is_shortest(n: nat)
    ensures
        forall|i: int|
            0 <= i < decimal_text(n as int).len() ==> '0' <= #[trigger] decimal_text(n as int)[i]
                <= '9',
        decimal_text(n as int)[0] == '0' ==> n == 0 && decimal_text(n as int).len() == 1,
        decimal_text(n as int).len() > 0,
        n > 0 ==> decimal_text(-(n as int)) == seq!['-'] + decimal_text(n as int),
    decreases n,
{
    if n >= 10 {
        decimal_is_shortest(n / 10);
        let high = decimal_text((n / 10) as int);
        assert(decimal_text(n as int) =~= high.push(((48 + n % 10) as u8) as char));
        assert(high.len() > 0);
        assert(decimal_text(n as int)[0] == high[0]);
        assert forall|i: int| 0 <= i < decimal_text(n as int).len() implies '0'
            <= #[trigger] decimal_text(n as int)[i] <= '9' by {
            if i < high.len() {
                assert(decimal_text(n as int)[i] == high[i]);
            }
        }
    }
}

} // verus!
