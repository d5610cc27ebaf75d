//! The 2x2 colour filter arrangement of a Bayer sensor.

use vstd::prelude::*;

verus! {

/// Channel number of a red photosite.
pub const RED: u8 = 0;

/// Channel number of a green photosite.
pub const GREEN: u8 = 1;

/// Channel number of a blue photosite.
pub const BLUE: u8 = 2;

/// One of the four 2x2 arrangements, named row by row.
#[derive(Debug, Clone, Copy, PartialEq, Eq, Structural)]
pub enum BayerPattern {
    /// Red, green / green, blue.
    RGGB,
    /// Green, red / blue, green.
    GRBG,
    /// Green, blue / red, green.
    GBRG,
    /// Blue, green / green, red.
    BGGR,
}

/// The channel that `pattern` places at column parity `px` and row parity `py`.
pub open spec fn cell_color(pattern: BayerPattern, px: int, py: int) -> u8 {
    match pattern {
        BayerPattern::RGGB => if px == 0 && py == 0 {
            RED
        } else if px == 1 && py == 1 {
            BLUE
        } else {
            GREEN
        },
        BayerPattern::GRBG => if px == 1 && py == 0 {
            RED
        } else if px == 0 && py == 1 {
            BLUE
        } else {
            GREEN
        },
        BayerPattern::GBRG => if px == 0 && py == 1 {
            RED
        } else if px == 1 && py == 0 {
            BLUE
        } else {
            GREEN
        },
        BayerPattern::BGGR => if px == 1 && py == 1 {
            RED
        } else if px == 0 && py == 0 {
            BLUE
        } else {
            GREEN
        },
    }
}

/// The channel recorded at sensor position `(x, y)`: the pattern repeats
/// every two columns and every two rows.
pub open spec fn color_of(pattern: BayerPattern, x: int, y: int) -> u8 {
    cell_color(pattern, x % 2, y % 2)
}

/// The arrangement that a four-letter colour description names; anything
/// that is not one of the four known names reads as RGGB.
pub open spec fn pattern_of_cdesc(c: Seq<i8>) -> BayerPattern {
    if c.len() < 4 {
        BayerPattern::RGGB
    } else if c[0] == 71 && c[1] == 82 && c[2] == 66 && c[3] == 71 {
        BayerPattern::GRBG
    } else if c[0] == 71 && c[1] == 66 && c[2] == 82 && c[3] == 71 {
        BayerPattern::GBRG
    } else if c[0] == 66 && c[1] == 71 && c[2] == 71 && c[3] == 82 {
        BayerPattern::BGGR
    } else {
        BayerPattern::RGGB
    }
}

/// Whether the first four bytes of a colour description spell RGGB, GRBG,
/// GBRG or BGGR.
pub open spec fn is_known_name(c: Seq<i8>) -> bool {
    c.len() >= 4 && ((c[0] == 82 && c[1] == 71 && c[2] == 71 && c[3] == 66) || (c[0] == 71 && c[1]
        == 82 && c[2] == 66 && c[3] == 71) || (c[0] == 71 && c[1] == 66 && c[2] == 82 && c[3] == 71)
        || (c[0] == 66 && c[1] == 71 && c[2] == 71 && c[3] == 82))
}

impl BayerPattern {
    /// Reads the arrangement from a decoder's colour description, whose
    /// first four bytes are the letters of the pattern.
    pub fn from_cdesc(cdesc: &[i8; 5]) -> (pattern: BayerPattern)
        ensures
            pattern == pattern_of_cdesc(cdesc@),
    {
        let a: i8 = cdesc[0];
        let b: i8 = cdesc[1];
        let c: i8 = cdesc[2];
        let d: i8 = cdesc[3];
        if a == 71 && b == 82 && c == 66 && d == 71 {
            BayerPattern::GRBG
        } else if a == 71 && b == 66 && c == 82 && d == 71 {
            BayerPattern::GBRG
        } else if a == 66 && b == 71 && c == 71 && d == 82 {
            BayerPattern::BGGR
        } else {
            BayerPattern::RGGB
        }
    }

    /// Whether the first four bytes of a colour description are the letters
    /// of one of the four arrangements.  A description that is not known
    /// reads as RGGB, which is worth a warning to whoever supplied it.
    pub fn is_known_cdesc(cdesc: &[i8; 5]) -> (known: bool)
        ensures
            known == is_known_name(cdesc@),
    {
        let a: i8 = cdesc[0];
        let b: i8 = cdesc[1];
        let c: i8 = cdesc[2];
        let d: i8 = cdesc[3];
        (a == 82 && b == 71 && c == 71 && d == 66) || (a == 71 && b == 82 && c == 66 && d == 71)
            || (a == 71 && b == 66 && c == 82 && d == 71) || (a == 66 && b == 71 && c == 71 && d
            == 82)
    }

    /// The position of the arrangement in the order RGGB, GRBG, GBRG, BGGR.
    pub fn index(&self) -> (i: u8)
        ensures
            i == match *self {
                BayerPattern::RGGB => 0u8,
                BayerPattern::GRBG => 1u8,
                BayerPattern::GBRG => 2u8,
                BayerPattern::BGGR => 3u8,
            },
    {
        match self {
            BayerPattern::RGGB => 0,
            BayerPattern::GRBG => 1,
            BayerPattern::GBRG => 2,
            BayerPattern::BGGR => 3,
        }
    }

    /// The channel recorded at `(x, y)`: 0 for red, 1 for green, 2 for blue.
    /// Coordinates are those of the whole sensor, not of a tile.
    pub fn color_at(&self, x: usize, y: usize) -> (c: u8)
        ensures
            c == color_of(*self, x as int, y as int),
            c == RED || c == GREEN || c == BLUE,
    {
        let x_odd: usize = x & 1;
        let y_odd: usize = y & 1;
        assert(x & 1 == x % 2) by (bit_vector);
        assert(y & 1 == y % 2) by (bit_vector);
        match self {
            BayerPattern::RGGB => if x_odd == 0 && y_odd == 0 {
                RED
            } else if x_odd == 1 && y_odd == 1 {
                BLUE
            } else {
                GREEN
            },
            BayerPattern::GRBG => if x_odd == 1 && y_odd == 0 {
                RED
            } else if x_odd == 0 && y_odd == 1 {
                BLUE
            } else {
                GREEN
            },
            BayerPattern::GBRG => if x_odd == 0 && y_odd == 1 {
                RED
            } else if x_odd == 1 && y_odd == 0 {
                BLUE
            } else {
                GREEN
            },
            BayerPattern::BGGR => if x_odd == 1 && y_odd == 1 {
                RED
            } else if x_odd == 0 && y_odd == 0 {
                BLUE
            } else {
                GREEN
            },
        }
    }
}

} // verus!
