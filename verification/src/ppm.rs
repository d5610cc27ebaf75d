//! The header of a binary PPM image, as the RAW decoder writes it: the
//! line `P6`, a line with width and height, a line with the largest sample
//! value, and then the pixels.

use vstd::prelude::*;
use vstd::string::*;
use crate::error::MediaError;

verus! {

/// Number of leading bytes in which the first lines of the header are
/// looked for.
pub const HEADER_WINDOW: usize = 100;

/// What can be wrong with the header of a PPM image.
#[derive(Debug, Clone, Copy, PartialEq, Eq, Structural)]
pub enum PpmError {
    /// The image has fewer than three lines at its start, or does not begin
    /// with the line `P6`.
    Format,
    /// The second line does not consist of two words.
    Dimensions,
    /// The first word of the second line writes no width.
    Width,
    /// The second word of the second line writes no height.
    Height,
}

/// What the header of a PPM image says.
#[derive(Debug, Clone, Copy, PartialEq, Eq, Structural)]
pub struct PpmHeader {
    /// Width of the image in pixels.
    pub width: u32,
    /// Height of the image in pixels.
    pub height: u32,
    /// Where the pixels begin: after the third line feed of the image, or
    /// at its first byte where it has fewer than three.
    pub data_start: usize,
}

/// The first position from `from` up to `to` that holds a line feed; `to`
/// if none does.
pub open spec fn line_end(bytes: Seq<u8>, from: int, to: int) -> int
    decreases to - from,
{
    if from >= to {
        to
    } else if bytes[from] == 10 {
        from
    } else {
        line_end(bytes, from + 1, to)
    }
}

/// Whether a byte is white space: a blank, a tab, a line feed, a vertical
/// tab, a form feed or a carriage return.
pub open spec fn is_blank(b: u8) -> bool {
    b == 32 || (9 <= b && b <= 13)
}

/// The first position from `from` up to `to` that holds no white space;
/// `to` if all do.
pub open spec fn skip_blanks(bytes: Seq<u8>, from: int, to: int) -> int
    decreases to - from,
{
    if from >= to {
        to
    } else if !is_blank(bytes[from]) {
        from
    } else {
        skip_blanks(bytes, from + 1, to)
    }
}

/// The first position from `from` up to `to` that holds white space; `to`
/// if none does.
pub open spec fn skip_word(bytes: Seq<u8>, from: int, to: int) -> int
    decreases to - from,
{
    if from >= to {
        to
    } else if is_blank(bytes[from]) {
        from
    } else {
        skip_word(bytes, from + 1, to)
    }
}

/// Whether the bytes from `from` up to `to` are decimal digits.
pub open spec fn digits_only(bytes: Seq<u8>, from: int, to: int) -> bool {
    forall|i: int| from <= i < to ==> 48 <= #[trigger] bytes[i] <= 57
}

/// The number that the decimal digits from `from` up to `to` write.
pub open spec fn digits_number(bytes: Seq<u8>, from: int, to: int) -> int
    decreases to - from,
{
    if to <= from {
        0
    } else {
        digits_number(bytes, from, to - 1) * 10 + (bytes[to - 1] - 48)
    }
}

/// The number that the word from `from` up to `to` writes: decimal digits,
/// with or without a plus sign in front, up to the largest `u32`.
pub open spec fn word_number(bytes: Seq<u8>, from: int, to: int) -> Option<u32> {
    let start = if from < to && bytes[from] == 43 {
        from + 1
    } else {
        from
    };
    if start >= to || !digits_only(bytes, start, to) || digits_number(bytes, start, to)
        > u32::MAX {
        None
    } else {
        Some(digits_number(bytes, start, to) as u32)
    }
}

/// The end of a line without the carriage return that may stand before the
/// line feed.
pub open spec fn content_end(bytes: Seq<u8>, from: int, end: int) -> int {
    if end > from && bytes[end - 1] == 13 {
        end - 1
    } else {
        end
    }
}

/// Where the pixels of an image begin.
pub open spec fn pixels_start(data: Seq<u8>) -> int {
    let n = data.len() as int;
    let e1 = line_end(data, 0, n);
    let e2 = line_end(data, e1 + 1, n);
    let e3 = line_end(data, e2 + 1, n);
    if e3 < n {
        e3 + 1
    } else {
        0
    }
}

/// What the header of an image says, or what is wrong with it.
pub open spec fn header_of(data: Seq<u8>) -> Result<PpmHeader, PpmError> {
    let w = if data.len() < HEADER_WINDOW {
        data.len() as int
    } else {
        HEADER_WINDOW as int
    };
    let e1 = line_end(data, 0, w);
    let e2 = line_end(data, e1 + 1, w);
    if e1 >= w || e2 >= w || e2 + 1 >= w {
        Err(PpmError::Format)
    } else {
        let c1 = content_end(data, 0, e1);
        if !(c1 == 2 && data[0] == 80 && data[1] == 54) {
            Err(PpmError::Format)
        } else {
            let c2 = content_end(data, e1 + 1, e2);
            let a = skip_blanks(data, e1 + 1, c2);
            let b = skip_word(data, a, c2);
            let c = skip_blanks(data, b, c2);
            let d = skip_word(data, c, c2);
            let e = skip_blanks(data, d, c2);
            if a >= c2 || c >= c2 || e < c2 {
                Err(PpmError::Dimensions)
            } else {
                match word_number(data, a, b) {
                    None => Err(PpmError::Width),
                    Some(width) => match word_number(data, c, d) {
                        None => Err(PpmError::Height),
                        Some(height) => Ok(
                            PpmHeader { width, height, data_start: pixels_start(data) as usize },
                        ),
                    },
                }
            }
        }
    }
}

/// The message of an error.
pub open spec fn ppm_message(e: PpmError) -> Seq<char> {
    match e {
        PpmError::Format => "Invalid PPM format"@,
        PpmError::Dimensions => "Invalid PPM dimensions"@,
        PpmError::Width => "Invalid width"@,
        PpmError::Height => "Invalid height"@,
    }
}

impl PpmError {
    /// The error as an error of processing, with its message.
    pub fn into_media_error(self) -> (e: MediaError)
        ensures
            e matches MediaError::ProcessingError(message) && message@ == ppm_message(self),
    {
        match self {
            PpmError::Format => MediaError::ProcessingError(String::from_str("Invalid PPM format")),
            PpmError::Dimensions => MediaError::ProcessingError(
                String::from_str("Invalid PPM dimensions"),
            ),
            PpmError::Width => MediaError::ProcessingError(String::from_str("Invalid width")),
            PpmError::Height => MediaError::ProcessingError(String::from_str("Invalid height")),
        }
    }
}

/// The first line feed from `from` up to `to`.
fn find_line_end(data: &[u8], from: usize, to: usize) -> (end: usize)
    requires
        to <= data@.len(),
    ensures
        end == line_end(data@, from as int, to as int),
        from <= to ==> from <= end <= to,
{
    let mut i: usize = from;
    while i < to && data[i] != 10
        invariant
            to <= data@.len(),
            from <= to ==> from <= i <= to,
            line_end(data@, from as int, to as int) == line_end(data@, i as int, to as int),
        decreases to - i,
    {
        i = i + 1;
    }
    if i >= to {
        to
    } else {
        i
    }
}

/// Whether a byte is white space.
fn blank(b: u8) -> (r: bool)
    ensures
        r == is_blank(b),
{
    b == 32 || (9 <= b && b <= 13)
}

/// The first byte from `from` up to `to` that is no white space.
fn find_word(data: &[u8], from: usize, to: usize) -> (at: usize)
    requires
        from <= to <= data@.len(),
    ensures
        at == skip_blanks(data@, from as int, to as int),
        from <= at <= to,
{
    let mut i: usize = from;
    while i < to && blank(data[i])
        invariant
            from <= i <= to <= data@.len(),
            skip_blanks(data@, from as int, to as int) == skip_blanks(data@, i as int, to as int),
        decreases to - i,
    {
        i = i + 1;
    }
    i
}

/// The first byte from `from` up to `to` that is white space.
fn find_blank(data: &[u8], from: usize, to: usize) -> (at: usize)
    requires
        from <= to <= data@.len(),
    ensures
        at == skip_word(data@, from as int, to as int),
        from <= at <= to,
{
    let mut i: usize = from;
    while i < to && !blank(data[i])
        invariant
            from <= i <= to <= data@.len(),
            skip_word(data@, from as int, to as int) == skip_word(data@, i as int, to as int),
        decreases to - i,
    {
        i = i + 1;
    }
    i
}

/// The number written so far is at most the number written in the end.
pub proof fn lemma_digits_number_grows(bytes: Seq<u8>, from: int, mid: int, to: int)
    requires
        0 <= from <= mid <= to <= bytes.len(),
        digits_only(bytes, from, to),
    ensures
        0 <= digits_number(bytes, from, mid) <= digits_number(bytes, from, to),
    decreases to - mid,
{
    if mid < to {
        lemma_digits_number_grows(bytes, from, mid, to - 1);
        assert(48 <= bytes[to - 1] <= 57);
    } else {
        lemma_digits_number_nonnegative(bytes, from, mid);
    }
}

/// A text of digits writes no negative number.
pub proof fn lemma_digits_number_nonnegative(bytes: Seq<u8>, from: int, to: int)
    requires
        0 <= from <= to <= bytes.len(),
        digits_only(bytes, from, to),
    ensures
        0 <= digits_number(bytes, from, to),
    decreases to - from,
{
    if from < to {
        lemma_digits_number_nonnegative(bytes, from, to - 1);
        assert(48 <= bytes[to - 1] <= 57);
    }
}

/// Reads the number that the word from `from` up to `to` writes.
fn read_number(data: &[u8], from: usize, to: usize) -> (r: Option<u32>)
    requires
        from <= to <= data@.len(),
    ensures
        r == word_number(data@, from as int, to as int),
{
    let start: usize = if from < to && data[from] == 43 {
        from + 1
    } else {
        from
    };
    if start >= to {
        return None;
    }
    let mut value: u64 = 0;
    let mut i: usize = start;
    while i < to
        invariant
            from <= start <= i <= to <= data@.len(),
            start < to,
            start == if from < to && data@[from as int] == 43 {
                from + 1
            } else {
                from as int
            },
            digits_only(data@, start as int, i as int),
            value == digits_number(data@, start as int, i as int),
            value <= u32::MAX,
        decreases to - i,
    {
        let b: u8 = data[i];
        if b < 48 || b > 57 {
            return None;
        }
        let next: u64 = value * 10 + (b - 48) as u64;
        if next > 0xffff_ffff {
            proof {
                if digits_only(data@, start as int, to as int) {
                    lemma_digits_number_grows(data@, start as int, i + 1, to as int);
                }
            }
            return None;
        }
        value = next;
        i = i + 1;
    }
    Some(value as u32)
}

/// Where the pixels of an image begin: after its third line feed, or at
/// its first byte where it has fewer than three.
pub fn ppm_data_start(data: &[u8]) -> (start: usize)
    ensures
        start == pixels_start(data@),
        start <= data@.len(),
{
    let n: usize = data.len();
    let f1: usize = find_line_end(data, 0, n);
    let f2: usize = if f1 < n {
        find_line_end(data, f1 + 1, n)
    } else {
        n
    };
    let f3: usize = if f2 < n {
        find_line_end(data, f2 + 1, n)
    } else {
        n
    };
    proof {
        lemma_line_end_beyond(data@, n as int);
    }
    if f3 < n {
        f3 + 1
    } else {
        0
    }
}

/// Reads the header of a binary PPM image.
///
/// The first two lines and the start of the third are looked for among the
/// first hundred bytes.  The pixels begin after the third line feed of the
/// image.
pub fn parse_ppm_header(data: &[u8]) -> (r: Result<PpmHeader, PpmError>)
    ensures
        r == header_of(data@),
{
    let n: usize = data.len();
    let w: usize = if n < HEADER_WINDOW {
        n
    } else {
        HEADER_WINDOW
    };
    let e1: usize = find_line_end(data, 0, w);
    if e1 >= w {
        return Err(PpmError::Format);
    }
    let e2: usize = find_line_end(data, e1 + 1, w);
    if e2 >= w || e2 + 1 >= w {
        return Err(PpmError::Format);
    }
    let c1: usize = if e1 > 0 && data[e1 - 1] == 13 {
        e1 - 1
    } else {
        e1
    };
    if !(c1 == 2 && data[0] == 80 && data[1] == 54) {
        return Err(PpmError::Format);
    }
    let c2: usize = if e2 > e1 + 1 && data[e2 - 1] == 13 {
        e2 - 1
    } else {
        e2
    };
    let a: usize = find_word(data, e1 + 1, c2);
    let b: usize = find_blank(data, a, c2);
    let c: usize = find_word(data, b, c2);
    let d: usize = find_blank(data, c, c2);
    let e: usize = find_word(data, d, c2);
    if a >= c2 || c >= c2 || e < c2 {
        return Err(PpmError::Dimensions);
    }
    let width: u32 = match read_number(data, a, b) {
        Some(v) => v,
        None => {
            return Err(PpmError::Width);
        },
    };
    let height: u32 = match read_number(data, c, d) {
        Some(v) => v,
        None => {
            return Err(PpmError::Height);
        },
    };
    let data_start: usize = ppm_data_start(data);
    Ok(PpmHeader { width, height, data_start })
}

/// Looking for a line feed from the end of the bytes on finds none.
pub proof fn lemma_line_end_beyond(bytes: Seq<u8>, n: int)
    ensures
        line_end(bytes, n + 1, n) == n,
        line_end(bytes, n, n) == n,
{
}

} // verus!
