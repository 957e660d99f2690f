//! Per-cell glyph selection: cyclic word indexing, pictographic handling,
//! structural edge overrides, and luminance-based substitution.
use vstd::prelude::*;

use crate::grid::Cell;
use vstd::string::StrSliceExecFns;

verus! {

/// Whether a character is a pictographic (emoji) glyph, as the compiled-in
/// emoji table decides it.
pub uninterp spec fn is_pictographic(c: char) -> bool;

/// Relies on `emojis::get`: a lookup in a fixed table compiled into the
/// crate, keyed by the character's string form; the result depends on the
/// character alone.
#[verifier::external_body]
pub(crate) fn char_is_pictographic(c: char) -> (r: bool)
    ensures
        r == is_pictographic(c),
{
    let mut buf = [0u8; 4];
    emojis::get(c.encode_utf8(&mut buf)).is_some()
}

/// A structural edge substitution selected by the occupancy bitmask.
#[derive(Clone, Copy, Debug, PartialEq, Eq, Structural)]
pub enum EdgeOverride {
    /// The first glyph becomes a vertical bar; the second keeps its word glyph.
    LeftBar,
    /// The second glyph becomes a vertical bar; a pictographic first glyph
    /// becomes a dot.
    RightBar,
    /// Both glyphs are replaced by the given pair.
    Pair(char, char),
}

/// The fixed occupancy-mask table: which bit patterns of the 8 neighbors
/// (NW,N,NE,W,E,SW,S,SE from the high bit down) trigger which line-drawing
/// substitution.
pub open spec fn spec_edge_override(mask: u8) -> Option<EdgeOverride> {
    if mask == 0x6B || mask == 0x6F {
        Some(EdgeOverride::LeftBar)
    } else if mask == 0xD6 {
        Some(EdgeOverride::RightBar)
    } else if mask == 0x2B || mask == 0x2F || mask == 0x2E || mask == 0x2C || mask == 0x0B {
        Some(EdgeOverride::Pair(' ', '/'))
    } else if mask == 0x96 || mask == 0x97 || mask == 0x93 || mask == 0x91 || mask == 0x16 {
        Some(EdgeOverride::Pair('\\', ' '))
    } else if mask == 0x3F {
        Some(EdgeOverride::Pair('-', '/'))
    } else if mask == 0x9F {
        Some(EdgeOverride::Pair('\\', '-'))
    } else if mask == 0x1F {
        Some(EdgeOverride::Pair('-', '-'))
    } else if mask == 0x0F {
        Some(EdgeOverride::Pair(' ', '_'))
    } else if mask == 0x17 {
        Some(EdgeOverride::Pair('_', ' '))
    } else if mask == 0x07 {
        Some(EdgeOverride::Pair('_', '_'))
    } else {
        None
    }
}

/// The occupancy-mask table as executable code (see [`spec_edge_override`]).
pub fn edge_override(mask: u8) -> (r: Option<EdgeOverride>)
    ensures
        r == spec_edge_override(mask),
{
    match mask {
        0x6B | 0x6F => Some(EdgeOverride::LeftBar),
        0xD6 => Some(EdgeOverride::RightBar),
        0x2B | 0x2F | 0x2E | 0x2C | 0x0B => Some(EdgeOverride::Pair(' ', '/')),
        0x96 | 0x97 | 0x93 | 0x91 | 0x16 => Some(EdgeOverride::Pair('\\', ' ')),
        0x3F => Some(EdgeOverride::Pair('-', '/')),
        0x9F => Some(EdgeOverride::Pair('\\', '-')),
        0x1F => Some(EdgeOverride::Pair('-', '-')),
        0x0F => Some(EdgeOverride::Pair(' ', '_')),
        0x17 => Some(EdgeOverride::Pair('_', ' ')),
        0x07 => Some(EdgeOverride::Pair('_', '_')),
        _ => None,
    }
}

/// The foreground cell composed for an occupied grid position: two glyphs
/// drawn cyclically from `word` at `base` and `base + 1`, a pictographic
/// second glyph replaced by a dot, a pictographic first glyph flagged custom
/// and left alone (suppressing the second glyph), and the structural edge
/// table applied last, clearing the custom flag whenever it fires.
pub open spec fn spec_compose_cell(
    word: Seq<char>,
    custom_word: bool,
    base: int,
    mask: u8,
    color: (u8, u8, u8),
) -> Cell {
    let c1 = word[base % word.len() as int];
    let c2raw = word[(base + 1) % word.len() as int];
    let c2 = if is_pictographic(c2raw) {
        '.'
    } else {
        c2raw
    };
    let pic1 = is_pictographic(c1);
    match spec_edge_override(mask) {
        Some(EdgeOverride::LeftBar) => Cell::Foreground {
            custom_glyph: false,
            glyph0: '|',
            glyph1: Some(c2),
            color,
        },
        Some(EdgeOverride::RightBar) => Cell::Foreground {
            custom_glyph: false,
            glyph0: if pic1 {
                '.'
            } else {
                c1
            },
            glyph1: Some('|'),
            color,
        },
        Some(EdgeOverride::Pair(a, b)) => Cell::Foreground {
            custom_glyph: false,
            glyph0: a,
            glyph1: Some(b),
            color,
        },
        None => Cell::Foreground {
            custom_glyph: custom_word || pic1,
            glyph0: c1,
            glyph1: if pic1 {
                None
            } else {
                Some(c2)
            },
            color,
        },
    }
}

/// Compose the cell for an occupied grid position (see
/// [`spec_compose_cell`]).
pub fn compose_cell(word: &str, custom_word: bool, base: usize, mask: u8, color: (u8, u8, u8)) -> (c:
    Cell)
    requires
        word@.len() > 0,
        base < usize::MAX,
    ensures
        c == spec_compose_cell(word@, custom_word, base as int, mask, color),
{
    let len = word.unicode_len();
    let c1 = word.get_char(base % len);
    let c2raw = word.get_char((base + 1) % len);
    let c2 = if char_is_pictographic(c2raw) {
        '.'
    } else {
        c2raw
    };
    let pic1 = char_is_pictographic(c1);
    match edge_override(mask) {
        Some(EdgeOverride::LeftBar) => Cell::Foreground {
            custom_glyph: false,
            glyph0: '|',
            glyph1: Some(c2),
            color,
        },
        Some(EdgeOverride::RightBar) => Cell::Foreground {
            custom_glyph: false,
            glyph0: if pic1 {
                '.'
            } else {
                c1
            },
            glyph1: Some('|'),
            color,
        },
        Some(EdgeOverride::Pair(a, b)) => Cell::Foreground {
            custom_glyph: false,
            glyph0: a,
            glyph1: Some(b),
            color,
        },
        None => Cell::Foreground {
            custom_glyph: custom_word || pic1,
            glyph0: c1,
            glyph1: if pic1 {
                None
            } else {
                Some(c2)
            },
            color,
        },
    }
}

/// The occupancy mask with only the three southern neighbors (SW, S, SE)
/// set always composes the underscore pair with the custom flag cleared,
/// whatever the palette chose.
pub proof fn lemma_south_edge_forces_underscores(
    word: Seq<char>,
    custom_word: bool,
    base: int,
    color: (u8, u8, u8),
)
    requires
        word.len() > 0,
    ensures
        spec_compose_cell(word, custom_word, base, 0x07u8, color) == (Cell::Foreground {
            custom_glyph: false,
            glyph0: '_',
            glyph1: Some('_'),
            color,
        }),
{
}

/// When no structural override fires and the first word glyph is
/// pictographic, the composed cell suppresses its second glyph and carries
/// the custom flag.
pub proof fn lemma_pictographic_first_glyph_isolated(
    word: Seq<char>,
    custom_word: bool,
    base: int,
    mask: u8,
    color: (u8, u8, u8),
)
    requires
        word.len() > 0,
        spec_edge_override(mask) is None,
        is_pictographic(word[base % word.len() as int]),
    ensures
        spec_compose_cell(word, custom_word, base, mask, color) == (Cell::Foreground {
            custom_glyph: true,
            glyph0: word[base % word.len() as int],
            glyph1: None,
            color,
        }),
{
}

/// Luminance of a color, scaled so that the whole range is `0 ..= 2550000`.
pub open spec fn spec_luminance(c: (u8, u8, u8)) -> int {
    2125 * c.0 + 7154 * c.1 + 721 * c.2
}

/// Compute the scaled luminance of a color.
pub fn cell_luminance(c: (u8, u8, u8)) -> (r: u32)
    ensures
        r == spec_luminance(c),
{
    2125u32 * (c.0 as u32) + 7154u32 * (c.1 as u32) + 721u32 * (c.2 as u32)
}

/// The glyph shown by the colorless renderings: explicit and line-drawing
/// glyphs pass through, anything else becomes a density mark for the cell's
/// luminance band.
pub open spec fn spec_choose_glyph(custom: bool, g: char, lum: int) -> char {
    if custom {
        g
    } else if g == ' ' || g == '/' || g == '-' || g == '_' || g == '\\' {
        g
    } else if lum < 510000 {
        '.'
    } else if lum < 1020000 {
        ','
    } else if lum < 1530000 {
        '`'
    } else if lum < 2040000 {
        '*'
    } else {
        '#'
    }
}

/// Pick the output glyph for the colorless renderings (see
/// [`spec_choose_glyph`]).
pub fn choose_glyph(custom: bool, g: char, lum: u32) -> (r: char)
    ensures
        r == spec_choose_glyph(custom, g, lum as int),
{
    if custom {
        return g;
    }
    if g == ' ' || g == '/' || g == '-' || g == '_' || g == '\\' {
        return g;
    }
    if lum < 510000 {
        '.'
    } else if lum < 1020000 {
        ','
    } else if lum < 1530000 {
        '`'
    } else if lum < 2040000 {
        '*'
    } else {
        '#'
    }
}

} // verus!
