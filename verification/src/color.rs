//! Colors, as they are written on the command line and as they are drawn.

use crate::number::{
    digit_of, digits_stand_for_their_places, digits_value, number_in, other_texts_are_no_numbers,
    parse_u32, unsigned_part, writes_digit,
};
use vstd::arithmetic::power::pow;
use vstd::prelude::*;
use vstd::string::{StrSliceExecFns, StringExecFns};
use vstd::utf8::{encode_utf8, is_ascii_chars, is_ascii_chars_encode_utf8};

verus! {

/// The color that stands for one that cannot be read: opaque white.
pub const WHITE: u32 = 0xffff_ffff;

/// A written color without the `#` that it may open with.
pub open spec fn color_digits(s: Seq<char>) -> Seq<char> {
    if s.len() > 0 && s[0] == '#' {
        s.skip(1)
    } else {
        s
    }
}

/// The color that a text stands for: eight hexadecimal digits give red, green, blue and the
/// opacity; six give an opaque color; anything else is white. One plus sign may stand for the
/// first digit.
pub open spec fn color_of(s: Seq<char>) -> int {
    let digits = color_digits(s);
    match number_in(digits, 16, false, 0, u32::MAX as int) {
        Some(value) => if digits.len() == 8 {
            value
        } else if digits.len() == 6 {
            value * 0x100 + 0xff
        } else {
            WHITE as int
        },
        None => WHITE as int,
    }
}

/// A number is below the power of the base that its digits count.
proof fn digits_value_bound(s: Seq<char>, radix: nat)
    requires
        radix > 0,
        digits_value(s, radix) is Some,
    ensures
        digits_value(s, radix)->0 < pow(radix as int, s.len()),
    decreases s.len(),
{
    reveal(pow);
    if s.len() > 0 {
        digits_value_bound(s.drop_last(), radix);
        let high = digits_value(s.drop_last(), radix)->0 as int;
        let low = digit_of(s.last(), radix)->0 as int;
        let limit = pow(radix as int, (s.len() - 1) as nat);
        assert(high * radix + low < radix * limit) by (nonlinear_arith)
            requires
                high + 1 <= limit,
                low < radix,
        ;
    }
}

/// Six hexadecimal digits make a number of at most 24 bits.
proof fn six_digits_bound(s: Seq<char>)
    requires
        s.len() <= 6,
        digits_value(s, 16) is Some,
    ensures
        digits_value(s, 16)->0 < 0x100_0000,
{
    digits_value_bound(s, 16);
    reveal_with_fuel(pow, 7);
}

/// The text of a color without the `#` that it may open with.
fn strip_hash(color: &str) -> (r: &str)
    ensures
        r@ == color_digits(color@),
{
    let n: usize = color.unicode_len();
    if n > 0 && color.get_char(0) == '#' {
        let rest = color.substring_char(1, n);
        assert(rest@ =~= color@.skip(1));
        rest
    } else {
        color
    }
}

/// Reads a color.
pub fn parse_color(color: &str) -> (r: u32)
    ensures
        r == color_of(color@),
{
    let digits = strip_hash(color);
    let len: usize = digits.unicode_len();
    if len != 6 && len != 8 {
        return WHITE;
    }
    match parse_u32(digits, 16) {
        None => WHITE,
        Some(value) => if len == 6 {
            proof {
                six_digits_bound(unsigned_part(digits@, false));
            }
            assert(value < 0x100_0000 ==> (value << 8) | 0xff == value * 0x100 + 0xff) by (bit_vector);
            (value << 8) | 0xff
        } else {
            value
        },
    }
}

/// What is said of a color whose length is neither of the two that a color can have.
pub open spec fn color_warning_of(s: Seq<char>) -> Option<Seq<char>> {
    let digits = color_digits(s);
    let len = encode_utf8(digits).len();
    if len != 6 && len != 8 {
        Some("Invalid color "@ + digits + ", defaulting to 0xFFFFFFFF"@)
    } else {
        None
    }
}

/// What to say of a color whose length in bytes is neither six nor eight.
pub fn color_warning(color: &str) -> (r: Option<String>)
    ensures
        match r {
            Some(text) => color_warning_of(color@) == Some(text@),
            None => color_warning_of(color@) is None,
        },
        !(color@.len() > 0 && color@[0] == '#') ==> (r is None <==> encode_utf8(color@).len() == 6
            || encode_utf8(color@).len() == 8),
        !(color@.len() > 0 && color@[0] == '#') && r is Some ==> r->0@ == "Invalid color "@ + color@
            + ", defaulting to 0xFFFFFFFF"@,
        color@.len() > 0 && color@[0] == '#' ==> (r is None <==> encode_utf8(color@.skip(1)).len()
            == 6 || encode_utf8(color@.skip(1)).len() == 8),
        color@.len() > 0 && color@[0] == '#' && r is Some ==> r->0@ == "Invalid color "@
            + color@.skip(1) + ", defaulting to 0xFFFFFFFF"@,
{
    let digits = strip_hash(color);
    let len: usize = digits.as_bytes().len();
    if len != 6 && len != 8 {
        let mut text: String = "Invalid color ".to_owned();
        text.append(digits);
        text.append(", defaulting to 0xFFFFFFFF");
        Some(text)
    } else {
        None
    }
}

/// The four parts of a color.
#[derive(Debug, Clone, Copy, PartialEq, Eq, Structural)]
pub struct Channels {
    pub red: u8,
    pub green: u8,
    pub blue: u8,
    pub alpha: u8,
}

/// The parts of a color, from its highest byte to its lowest.
pub open spec fn channels_of(color: int) -> Channels {
    Channels {
        red: (color / 0x100_0000 % 0x100) as u8,
        green: (color / 0x1_0000 % 0x100) as u8,
        blue: (color / 0x100 % 0x100) as u8,
        alpha: (color % 0x100) as u8,
    }
}

/// The parts of a color, each from nothing (0) to full (255).
pub fn color_channels(color: u32) -> (r: Channels)
    ensures
        r == channels_of(color as int),
        color == r.red * 0x100_0000 + r.green * 0x1_0000 + r.blue * 0x100 + r.alpha,
{
    assert((color >> 24) & 0xff == color / 0x100_0000 % 0x100) by (bit_vector);
    assert((color >> 16) & 0xff == color / 0x1_0000 % 0x100) by (bit_vector);
    assert((color >> 8) & 0xff == color / 0x100 % 0x100) by (bit_vector);
    assert(color & 0xff == color % 0x100) by (bit_vector);
    proof {
        channels_make_the_color(color);
    }
    Channels {
        red: ((color >> 24) & 0xff) as u8,
        green: ((color >> 16) & 0xff) as u8,
        blue: ((color >> 8) & 0xff) as u8,
        alpha: (color & 0xff) as u8,
    }
}

/// A color means the same with and without its `#`, unless another one follows.
pub proof fn hash_is_optional(s: Seq<char>)
    requires
        s.len() > 0 ==> s[0] != '#',
    ensures
        color_of(seq!['#'] + s) == color_of(s),
{
    assert((seq!['#'] + s).skip(1) =~= s);
}

/// The value of digits with two more behind them.
proof fn two_more_digits(s: Seq<char>, a: char, b: char)
    ensures
        digits_value(s.push(a).push(b), 16) == (match (
            digits_value(s, 16),
            digit_of(a, 16),
            digit_of(b, 16),
        ) {
            (Some(high), Some(x), Some(y)) => Some(high * 0x100 + x * 0x10 + y),
            _ => None,
        }),
{
    let one = s.push(a);
    let two = one.push(b);
    assert(two.drop_last() =~= one && two.last() == b);
    assert(one.drop_last() =~= s && one.last() == a);
    assert(digits_value(one, 16) == (match (digits_value(s, 16), digit_of(a, 16)) {
        (Some(high), Some(x)) => Some(high * 0x10 + x),
        _ => None,
    }));
}

/// A color of six digits is the opaque one: the same as with `FF` behind it.
pub proof fn six_digits_are_opaque(s: Seq<char>)
    requires
        color_digits(s).len() == 6,
    ensures
        color_of(s + seq!['F', 'F']) == color_of(s),
        channels_of(color_of(s)).alpha == 0xff,
{
    let digits = color_digits(s);
    let longer = color_digits(s + seq!['F', 'F']);
    assert(longer =~= digits.push('F').push('F'));
    let body = unsigned_part(digits, false);
    assert(unsigned_part(longer, false) =~= body.push('F').push('F'));
    two_more_digits(body, 'F', 'F');
    if digits_value(body, 16) is Some {
        six_digits_bound(body);
    }
}

/// The parts of a color that was put together from them.
proof fn channels_of_parts(red: int, green: int, blue: int, alpha: int)
    requires
        0 <= red < 0x100,
        0 <= green < 0x100,
        0 <= blue < 0x100,
        0 <= alpha < 0x100,
    ensures
        channels_of(((red * 0x100 + green) * 0x100 + blue) * 0x100 + alpha) == (Channels {
            red: red as u8,
            green: green as u8,
            blue: blue as u8,
            alpha: alpha as u8,
        }),
{
    let color = ((red * 0x100 + green) * 0x100 + blue) * 0x100 + alpha;
    assert(color / 0x100 == (red * 0x100 + green) * 0x100 + blue);
    assert(color / 0x1_0000 == red * 0x100 + green);
    assert(color / 0x100_0000 == red);
}

/// Each pair of the eight digits of a color is one of its parts, in the order red, green, blue,
/// opacity.
pub proof fn eight_digits_are_channels(s: Seq<char>)
    requires
        color_digits(s).len() == 8,
        forall|i: int| 0 <= i < 8 ==> digit_of(#[trigger] color_digits(s)[i], 16) is Some,
    ensures
        ({
            let d = |i: int| digit_of(color_digits(s)[i], 16)->0;
            let color = channels_of(color_of(s));
            &&& color.red == d(0) * 0x10 + d(1)
            &&& color.green == d(2) * 0x10 + d(3)
            &&& color.blue == d(4) * 0x10 + d(5)
            &&& color.alpha == d(6) * 0x10 + d(7)
        }),
{
    let digits = color_digits(s);
    let d = |i: int| digit_of(digits[i], 16)->0 as int;
    let pair = |i: int| d(i) * 0x10 + d(i + 1);
    assert(digits[0] != '+') by {
        assert(digit_of(digits[0], 16) is Some);
    }
    assert(unsigned_part(digits, false) =~= digits);
    assert(digits.take(0) =~= Seq::empty());
    assert(digits.take(2) =~= digits.take(0).push(digits[0]).push(digits[1]));
    two_more_digits(digits.take(0), digits[0], digits[1]);
    assert(digits_value(digits.take(2), 16) == Some(pair(0) as nat));
    assert(digits.take(4) =~= digits.take(2).push(digits[2]).push(digits[3]));
    two_more_digits(digits.take(2), digits[2], digits[3]);
    assert(digits_value(digits.take(4), 16) == Some((pair(0) * 0x100 + pair(2)) as nat));
    assert(digits.take(6) =~= digits.take(4).push(digits[4]).push(digits[5]));
    two_more_digits(digits.take(4), digits[4], digits[5]);
    assert(digits =~= digits.take(6).push(digits[6]).push(digits[7]));
    two_more_digits(digits.take(6), digits[6], digits[7]);
    let value = ((pair(0) * 0x100 + pair(2)) * 0x100 + pair(4)) * 0x100 + pair(6);
    assert(digits_value(digits, 16) == Some(value as nat));
    assert(color_of(s) == value);
    channels_of_parts(pair(0), pair(2), pair(4), pair(6));
}

/// The parts of a color make it up again, red at the top and the opacity at the bottom.
pub proof fn channels_make_the_color(color: u32)
    ensures
        ({
            let parts = channels_of(color as int);
            color == parts.red * 0x100_0000 + parts.green * 0x1_0000 + parts.blue * 0x100
                + parts.alpha
        }),
{
    let n = color as int;
    assert(n / 0x1_0000 == n / 0x100 / 0x100);
    assert(n / 0x100_0000 == n / 0x1_0000 / 0x100);
    assert(0 <= n / 0x100_0000 < 0x100);
}

/// Whether a text is a color written with these hexadecimal digits, behind a `#` or without one.
pub open spec fn is_written_with(text: Seq<char>, d: Seq<int>) -> bool {
    let start = text.len() - d.len();
    &&& start == 0 || (start == 1 && text[0] == '#')
    &&& forall|i: int| 0 <= i < d.len() ==> writes_digit(#[trigger] text[start + i], d[i])
}

/// The digits of a written color are what it was written with.
proof fn color_digits_are(text: Seq<char>, d: Seq<int>)
    requires
        is_written_with(text, d),
        d.len() > 0,
    ensures
        color_digits(text).len() == d.len(),
        unsigned_part(color_digits(text), false) == color_digits(text),
        forall|i: int|
            0 <= i < d.len() ==> 0 <= d[i] < 16 && digit_of(#[trigger] color_digits(text)[i], 16)
                == Some(d[i] as nat),
        forall|i: int| 0 <= i < d.len() ==> (#[trigger] color_digits(text)[i]) as int <= 127,
{
    let start = text.len() - d.len();
    assert forall|i: int| 0 <= i < d.len() implies 0 <= d[i] < 16 && digit_of(
        #[trigger] text[start + i],
        16,
    ) == Some(d[i] as nat) && text[start + i] as int <= 127 by {
        digits_stand_for_their_places(text[start + i], d[i], 16);
    }
    assert(digit_of(text[start + 0], 16) is Some);
    assert(color_digits(text) =~= text.skip(start));
    assert forall|i: int| 0 <= i < d.len() implies #[trigger] color_digits(text)[i] == text[start
        + i] by {}
}

/// A color written with eight hexadecimal digits has exactly those digits: red, green, blue and the
/// opacity, two for each. Written with six it is the same with full opacity.
pub proof fn color_is_what_is_written(text: Seq<char>, d: Seq<int>)
    requires
        is_written_with(text, d),
        d.len() == 6 || d.len() == 8,
    ensures
        d.len() == 8 ==> color_of(text) == (d[0] * 16 + d[1]) * 0x100_0000 + (d[2] * 16 + d[3])
            * 0x1_0000 + (d[4] * 16 + d[5]) * 0x100 + (d[6] * 16 + d[7]),
        d.len() == 6 ==> color_of(text) == (d[0] * 16 + d[1]) * 0x100_0000 + (d[2] * 16 + d[3])
            * 0x1_0000 + (d[4] * 16 + d[5]) * 0x100 + 0xff,
        color_warning_of(text) is None,
{
    color_digits_are(text, d);
    let digits = color_digits(text);
    let pair = |i: int| d[i] * 16 + d[i + 1];
    assert forall|i: int| 0 <= i < digits.len() implies 0 <= #[trigger] digits[i] as int <= 127 by {
    }
    assert(is_ascii_chars(digits));
    is_ascii_chars_encode_utf8(digits);
    assert(0 <= d[0] < 16 && 0 <= d[1] < 16 && 0 <= d[2] < 16 && 0 <= d[3] < 16 && 0 <= d[4] < 16
        && 0 <= d[5] < 16) by {
        assert(digit_of(digits[0], 16) is Some && digit_of(digits[1], 16) is Some);
        assert(digit_of(digits[2], 16) is Some && digit_of(digits[3], 16) is Some);
        assert(digit_of(digits[4], 16) is Some && digit_of(digits[5], 16) is Some);
    }
    assert(digits.take(0) =~= Seq::empty());
    assert(digits.take(2) =~= digits.take(0).push(digits[0]).push(digits[1]));
    two_more_digits(digits.take(0), digits[0], digits[1]);
    assert(digits_value(digits.take(2), 16) == Some(pair(0) as nat));
    assert(digits.take(4) =~= digits.take(2).push(digits[2]).push(digits[3]));
    two_more_digits(digits.take(2), digits[2], digits[3]);
    assert(digits_value(digits.take(4), 16) == Some((pair(0) * 0x100 + pair(2)) as nat));
    assert(digits.take(6) =~= digits.take(4).push(digits[4]).push(digits[5]));
    two_more_digits(digits.take(4), digits[4], digits[5]);
    let six = (pair(0) * 0x100 + pair(2)) * 0x100 + pair(4);
    assert(digits_value(digits.take(6), 16) == Some(six as nat));
    if d.len() == 6 {
        assert(digits.take(6) =~= digits);
    } else {
        assert(digit_of(digits[6], 16) is Some && digit_of(digits[7], 16) is Some);
        assert(digits =~= digits.take(6).push(digits[6]).push(digits[7]));
        two_more_digits(digits.take(6), digits[6], digits[7]);
        assert(digits_value(digits, 16) == Some((six * 0x100 + pair(6)) as nat));
    }
}

/// What is not written with six or eight characters, or with one that is no hexadecimal digit, is
/// opaque white. A plus sign in the first place is the one exception.
pub proof fn unreadable_colors_are_white(digits: Seq<char>, i: int)
    requires
        (digits.len() != 6 && digits.len() != 8) || (0 <= i < digits.len() && !(i == 0 && digits[0]
            == '+') && forall|v: int| !writes_digit(digits[i], v)),
    ensures
        color_of(seq!['#'] + digits) == 0xffff_ffff,
        !(digits.len() > 0 && digits[0] == '#') ==> color_of(digits) == 0xffff_ffff,
{
    assert((seq!['#'] + digits).skip(1) =~= digits);
    if digits.len() == 6 || digits.len() == 8 {
        digits_stand_for_their_places(digits[i], 0, 16);
        other_texts_are_no_numbers(digits, i, 16, false, 0, u32::MAX as int);
    }
}

/// A plus sign in the first place stands for a zero there.
pub proof fn plus_sign_stands_for_zero(rest: Seq<char>)
    requires
        rest.len() == 5 || rest.len() == 7,
    ensures
        color_of(seq!['+'] + rest) == color_of(seq!['0'] + rest),
        color_of(seq!['#', '+'] + rest) == color_of(seq!['0'] + rest),
{
    let plus = seq!['+'] + rest;
    let zero = seq!['0'] + rest;
    assert((seq!['#', '+'] + rest).skip(1) =~= plus);
    assert(plus.skip(1) =~= rest);
    leading_zero(rest);
    if digits_value(rest, 16) is Some {
        digits_value_bound(rest, 16);
        reveal_with_fuel(pow, 8);
    }
}

/// A zero before digits changes nothing.
proof fn leading_zero(rest: Seq<char>)
    ensures
        digits_value(seq!['0'] + rest, 16) == digits_value(rest, 16),
    decreases rest.len(),
{
    let all = seq!['0'] + rest;
    if rest.len() == 0 {
        assert(all.drop_last() =~= Seq::empty());
        assert(digits_value(all.drop_last(), 16) == Some(0nat));
        assert(all.last() == '0');
    } else {
        leading_zero(rest.drop_last());
        assert(all.drop_last() =~= seq!['0'] + rest.drop_last());
    }
}

} // verus!
