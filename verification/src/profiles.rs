//! Camera profiles: reading tone curves and levels from maker notes, and
//! looking a value up on a tone curve.

use vstd::prelude::*;
use crate::text::chars_of;

verus! {

/// A tone curve: points that map an input level to an output level.
#[derive(Debug, Clone, PartialEq, Eq)]
pub struct ToneCurve {
    /// Input levels of the points.
    pub input: Vec<u16>,
    /// Output levels of the points, from 0 to 255.
    pub output: Vec<u8>,
}

/// The picture style that the camera was set to.
#[derive(Debug, Clone, PartialEq, Eq)]
pub struct PictureStyle {
    /// Name of the style.
    pub name: Option<String>,
    /// Change of saturation.
    pub saturation: i8,
    /// Change of sharpness.
    pub sharpness: i8,
    /// Change of contrast.
    pub contrast: i8,
    /// Change of colour tone.
    pub color_tone: i8,
}

impl Default for PictureStyle {
    fn default() -> (style: PictureStyle)
        ensures
            style.name is None,
            style.saturation == 0,
            style.sharpness == 0,
            style.contrast == 0,
            style.color_tone == 0,
    {
        PictureStyle { name: None, saturation: 0, sharpness: 0, contrast: 0, color_tone: 0 }
    }
}

/// Whether a character separates numbers: the white space of Unicode.
pub open spec fn is_space(c: char) -> bool {
    let u = c as u32;
    u == 0x20 || (0x09 <= u && u <= 0x0d) || u == 0x85 || u == 0xa0 || u == 0x1680 || (0x2000 <= u
        && u <= 0x200a) || u == 0x2028 || u == 0x2029 || u == 0x202f || u == 0x205f || u == 0x3000
}

/// Whether a character is a decimal digit.
pub open spec fn is_digit(c: char) -> bool {
    0x30 <= c as u32 && c as u32 <= 0x39
}

/// The value of a decimal digit; zero for any other character.
pub open spec fn digit_of(c: char) -> nat {
    if is_digit(c) {
        (c as u32 - 0x30) as nat
    } else {
        0
    }
}

/// Whether a text consists of decimal digits.
pub open spec fn all_digits(s: Seq<char>) -> bool {
    forall|i: int| 0 <= i < s.len() ==> is_digit(#[trigger] s[i])
}

/// The number that a text of decimal digits writes.
pub open spec fn digits_value(s: Seq<char>) -> nat
    decreases s.len(),
{
    if s.len() == 0 {
        0
    } else {
        digits_value(s.drop_last()) * 10 + digit_of(s.last())
    }
}

/// The number that a word writes: decimal digits, with or without a plus
/// sign in front, up to 65535.  Any other word writes none.
pub open spec fn word_value(word: Seq<char>) -> Option<u16> {
    let body = if word.len() > 0 && word[0] == '+' {
        word.drop_first()
    } else {
        word
    };
    if body.len() == 0 || !all_digits(body) || digits_value(body) > 65535 {
        None
    } else {
        Some(digits_value(body) as u16)
    }
}

/// Where the word that begins at `i` ends: at the next space or at the end
/// of the text.
pub open spec fn word_end(text: Seq<char>, i: int) -> int
    decreases text.len() - i,
{
    if i < 0 || i >= text.len() || is_space(text[i]) {
        i
    } else {
        word_end(text, i + 1)
    }
}

/// The numbers written in the text from position `i` on, in their order.
/// Words are separated by white space; a word that writes no number is
/// passed over.
pub open spec fn numbers_from(text: Seq<char>, i: int) -> Seq<u16>
    decreases text.len() - i,
{
    if i < 0 || i >= text.len() {
        Seq::<u16>::empty()
    } else if is_space(text[i]) {
        numbers_from(text, i + 1)
    } else {
        let end = word_end(text, i);
        if end <= i || end > text.len() {
            Seq::<u16>::empty()
        } else {
            match word_value(text.subrange(i, end)) {
                Some(v) => seq![v] + numbers_from(text, end),
                None => numbers_from(text, end),
            }
        }
    }
}

/// The numbers written in a text.
pub open spec fn numbers_of(text: Seq<char>) -> Seq<u16> {
    numbers_from(text, 0)
}

/// A level brought down to a byte.
pub open spec fn capped(v: u16) -> u8 {
    if v > 255 {
        255u8
    } else {
        v as u8
    }
}

/// The tone curve that a list of numbers describes: a count, that many
/// input levels, that many output levels.  Output levels above 255 are
/// taken as 255.  A list of fewer than three numbers, or shorter than its
/// count asks for, describes none.
pub open spec fn tone_curve_of(values: Seq<u16>) -> Option<(Seq<u16>, Seq<u8>)> {
    if values.len() < 3 {
        None
    } else {
        let count = values[0] as int;
        if values.len() < 1 + count * 2 {
            None
        } else {
            Some(
                (
                    values.subrange(1, 1 + count),
                    values.subrange(1 + count, 1 + count * 2).map_values(|v: u16| capped(v)),
                ),
            )
        }
    }
}

/// The four levels that a list of numbers begins with, if it has four.
pub open spec fn rggb_levels_of(values: Seq<u16>) -> Option<Seq<u16>> {
    if values.len() >= 4 {
        Some(values.subrange(0, 4))
    } else {
        None
    }
}

/// The value of a longer text of digits is at least that of a shorter one
/// that it begins with.
pub proof fn lemma_digits_value_grows(s: Seq<char>, n: int)
    requires
        0 <= n <= s.len(),
    ensures
        digits_value(s.subrange(0, n)) <= digits_value(s),
    decreases s.len(),
{
    if n < s.len() {
        lemma_digits_value_grows(s.drop_last(), n);
        assert(s.drop_last().subrange(0, n) =~= s.subrange(0, n));
    } else {
        assert(s.subrange(0, n) =~= s);
    }
}

/// The end of a word is the same from every position inside the word.
pub proof fn lemma_word_end_inside(text: Seq<char>, i: int, j: int)
    requires
        0 <= i <= j <= text.len(),
        forall|k: int| i <= k < j ==> !is_space(#[trigger] text[k]),
    ensures
        word_end(text, i) == word_end(text, j),
    decreases j - i,
{
    if i < j {
        lemma_word_end_inside(text, i + 1, j);
    }
}

/// Reads the number that the characters from `from` up to `to` write.
fn parse_word(chars: &Vec<char>, from: usize, to: usize) -> (r: Option<u16>)
    requires
        from < to <= chars@.len(),
    ensures
        r == word_value(chars@.subrange(from as int, to as int)),
{
    let ghost word = chars@.subrange(from as int, to as int);
    let start: usize = if chars[from] == '+' {
        from + 1
    } else {
        from
    };
    let ghost body = chars@.subrange(start as int, to as int);
    assert(body =~= if word.len() > 0 && word[0] == '+' {
        word.drop_first()
    } else {
        word
    });
    if start == to {
        return None;
    }
    let mut value: u32 = 0;
    let mut i: usize = start;
    while i < to
        invariant
            start <= i <= to <= chars@.len(),
            from < to,
            start < to,
            word == chars@.subrange(from as int, to as int),
            body == chars@.subrange(start as int, to as int),
            body == if word.len() > 0 && word[0] == '+' {
                word.drop_first()
            } else {
                word
            },
            all_digits(body.subrange(0, i - start)),
            value == digits_value(body.subrange(0, i - start)),
            value <= 65535,
        decreases to - i,
    {
        let c: char = chars[i];
        let code: u32 = c as u32;
        if code < 0x30 || code > 0x39 {
            assert(!is_digit(body[i - start]));
            return None;
        }
        let ghost before = body.subrange(0, i - start);
        let ghost after = body.subrange(0, i - start + 1);
        assert(after.drop_last() =~= before);
        assert(after.last() == c);
        assert(all_digits(after)) by {
            assert forall|k: int| 0 <= k < after.len() implies is_digit(#[trigger] after[k]) by {
                if k < before.len() {
                    assert(after[k] == before[k]);
                }
            }
        }
        let next: u32 = value * 10 + (code - 0x30);
        if next > 65535 {
            proof {
                lemma_digits_value_grows(body, i - start + 1);
            }
            return None;
        }
        value = next;
        i = i + 1;
    }
    assert(body.subrange(0, to - start) =~= body);
    Some(value as u16)
}

/// Whether a character separates numbers.
fn separates(c: char) -> (b: bool)
    ensures
        b == is_space(c),
{
    let u: u32 = c as u32;
    u == 0x20 || (0x09 <= u && u <= 0x0d) || u == 0x85 || u == 0xa0 || u == 0x1680 || (0x2000 <= u
        && u <= 0x200a) || u == 0x2028 || u == 0x2029 || u == 0x202f || u == 0x205f || u == 0x3000
}

/// The numbers written in a text, as `numbers_of` defines them.
pub fn parse_numbers(text: &str) -> (values: Vec<u16>)
    ensures
        values@ == numbers_of(text@),
{
    let chars = chars_of(text);
    let n: usize = chars.len();
    let mut values: Vec<u16> = Vec::new();
    let mut i: usize = 0;
    while i < n
        invariant
            i <= n,
            n == chars@.len(),
            chars@ == text@,
            numbers_of(text@) == values@ + numbers_from(text@, i as int),
        decreases n - i,
    {
        if separates(chars[i]) {
            assert(values@ + numbers_from(text@, i as int) =~= values@ + numbers_from(
                text@,
                i + 1,
            ));
            i = i + 1;
        } else {
            let mut end: usize = i + 1;
            while end < n && !separates(chars[end])
                invariant
                    i < end <= n,
                    n == chars@.len(),
                    chars@ == text@,
                    forall|k: int| i <= k < end ==> !is_space(#[trigger] text@[k]),
                decreases n - end,
            {
                end = end + 1;
            }
            proof {
                lemma_word_end_inside(text@, i as int, end as int);
                assert(word_end(text@, end as int) == end);
            }
            let ghost rest = numbers_from(text@, end as int);
            match parse_word(&chars, i, end) {
                Some(v) => {
                    values.push(v);
                    assert(values@ =~= values@.drop_last() + seq![v]);
                    assert(values@ + rest =~= values@.drop_last() + (seq![v] + rest));
                },
                None => {},
            }
            i = end;
        }
    }
    assert(values@ + numbers_from(text@, n as int) =~= values@);
    values
}

/// Reads a tone curve from its maker-note text: a count, the input levels
/// and the output levels, separated by white space.
pub fn parse_tone_curve(s: Option<&str>) -> (curve: Option<ToneCurve>)
    ensures
        match curve {
            Some(c) => s matches Some(text) && tone_curve_of(numbers_of(text@)) == Some(
                (c.input@, c.output@),
            ),
            None => s is None || (s matches Some(text) && tone_curve_of(numbers_of(text@)) is None),
        },
{
    let text = match s {
        Some(text) => text,
        None => {
            return None;
        },
    };
    let values = parse_numbers(text);
    if values.len() < 3 {
        return None;
    }
    let count: usize = values[0] as usize;
    if values.len() < 1 + count * 2 {
        return None;
    }
    let mut input: Vec<u16> = Vec::new();
    let mut output: Vec<u8> = Vec::new();
    let mut k: usize = 0;
    while k < count
        invariant
            k <= count,
            count <= 65535,
            1 + count * 2 <= values@.len(),
            input@ == values@.subrange(1, 1 + k),
            output@ == values@.subrange(1 + count, 1 + count + k).map_values(|v: u16| capped(v)),
        decreases count - k,
    {
        input.push(values[1 + k]);
        let level: u16 = values[1 + count + k];
        let byte: u8 = if level > 255 {
            255
        } else {
            level as u8
        };
        output.push(byte);
        assert(input@ =~= values@.subrange(1, 1 + k + 1));
        assert(output@ =~= values@.subrange(1 + count, 1 + count + k + 1).map_values(
            |v: u16| capped(v),
        ));
        k = k + 1;
    }
    assert(values@.subrange(1 + count, 1 + count + count) =~= values@.subrange(
        1 + count,
        1 + count * 2,
    ));
    Some(ToneCurve { input, output })
}

/// Reads the four levels of the photosites of a cell from their maker-note
/// text; none where the text writes fewer than four numbers.
pub fn parse_rggb_levels(s: Option<&str>) -> (levels: Option<[u16; 4]>)
    ensures
        match levels {
            Some(l) => s matches Some(text) && rggb_levels_of(numbers_of(text@)) == Some(l@),
            None => s is None || (s matches Some(text) && rggb_levels_of(numbers_of(text@)) is None),
        },
{
    let text = match s {
        Some(text) => text,
        None => {
            return None;
        },
    };
    let values = parse_numbers(text);
    if values.len() >= 4 {
        let levels: [u16; 4] = [values[0], values[1], values[2], values[3]];
        assert(levels@ =~= values@.subrange(0, 4));
        Some(levels)
    } else {
        None
    }
}

/// The first point, before the last, whose successor is not below `value`;
/// the last point if there is none.
pub open spec fn segment_of(input: Seq<u16>, value: u16, i: int) -> int
    decreases input.len() - i,
{
    if i < 0 || i >= input.len() - 1 || input[i + 1] >= value {
        i
    } else {
        segment_of(input, value, i + 1)
    }
}

/// The level on the straight line from `(x0, y0)` to `(x1, y1)` at `value`,
/// rounded down and kept between 0 and 255; `y0` where the two points
/// stand at the same input level.
pub open spec fn on_segment(x0: int, y0: int, x1: int, y1: int, value: int) -> int {
    if x1 == x0 {
        y0
    } else {
        let num = y0 * (x1 - x0) + (value - x0) * (y1 - y0);
        let den = x1 - x0;
        let level = if den > 0 {
            num / den
        } else {
            (-num) / (-den)
        };
        if level < 0 {
            0
        } else if level > 255 {
            255
        } else {
            level
        }
    }
}

/// The output level of `value` on the curve through the given points.
///
/// Without points the value is scaled from 14 bits to a byte.  Beyond the
/// last point the curve stays at its last output level.  In between the
/// level lies on the straight line through the two points around the
/// value; a missing second output level counts as 255.
pub open spec fn curve_level(input: Seq<u16>, output: Seq<u8>, value: u16) -> int {
    if input.len() == 0 || output.len() == 0 {
        if value * 255 / 16383 > 255 {
            255
        } else {
            value * 255 / 16383
        }
    } else {
        let i = segment_of(input, value, 0);
        if i >= input.len() - 1 {
            output.last() as int
        } else {
            on_segment(
                input[i] as int,
                output[i] as int,
                input[i + 1] as int,
                if i + 1 < output.len() {
                    output[i + 1] as int
                } else {
                    255
                },
                value as int,
            )
        }
    }
}

/// Looks `value` up on the tone curve through the points whose input
/// levels are `input` and whose output levels are `output`.
pub fn interpolate_curve(input: &[u16], output: &[u8], value: u16) -> (level: u8)
    requires
        input@.len() == 0 || output@.len() == 0 || output@.len() + 1 >= input@.len(),
    ensures
        level == curve_level(input@, output@, value),
{
    if input.len() == 0 || output.len() == 0 {
        let scaled: u32 = (value as u32) * 255 / 16383;
        return if scaled > 255 {
            255
        } else {
            scaled as u8
        };
    }
    let mut i: usize = 0;
    while i < input.len() - 1 && input[i + 1] < value
        invariant
            i <= input@.len() - 1,
            input@.len() > 0,
            segment_of(input@, value, 0) == segment_of(input@, value, i as int),
        decreases input@.len() - i,
    {
        i = i + 1;
    }
    if i >= input.len() - 1 {
        return output[output.len() - 1];
    }
    let x0: i64 = input[i] as i64;
    let x1: i64 = input[i + 1] as i64;
    let y0: i64 = output[i] as i64;
    let y1: i64 = if i + 1 < output.len() {
        output[i + 1] as i64
    } else {
        255
    };
    if x1 == x0 {
        return output[i];
    }
    let v: i64 = value as i64;
    assert(-16711425 <= y0 * (x1 - x0) <= 16711425) by (nonlinear_arith)
        requires
            0 <= y0 <= 255,
            -65535 <= x1 - x0 <= 65535,
    ;
    assert(-16711425 <= (v - x0) * (y1 - y0) <= 16711425) by (nonlinear_arith)
        requires
            -255 <= y1 - y0 <= 255,
            -65535 <= v - x0 <= 65535,
    ;
    let num: i64 = y0 * (x1 - x0) + (v - x0) * (y1 - y0);
    let den: i64 = x1 - x0;
    let n: i64 = if den > 0 {
        num
    } else {
        -num
    };
    let d: i64 = if den > 0 {
        den
    } else {
        -den
    };
    if n < 0 {
        assert(n / d < 0) by (nonlinear_arith)
            requires
                n < 0,
                d > 0,
        ;
        0
    } else {
        let q: i64 = n / d;
        if q > 255 {
            255
        } else {
            q as u8
        }
    }
}

} // verus!
