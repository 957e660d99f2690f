//! Colorless textual renderings of a grid for simple viewers, and the word
//! rules of the alternate render modes.
use vstd::prelude::*;

use crate::glyph::{cell_luminance, choose_glyph, spec_choose_glyph, spec_luminance};
use crate::grid::{Cell, Term};
use crate::text::push_char;
use vstd::string::StringExecFns;

verus! {

/// The characters one cell contributes to a colorless rendering: nothing
/// for background, one or two luminance-substituted glyphs otherwise.
pub open spec fn spec_nocolor_cell(c: Cell) -> Seq<char> {
    match c {
        Cell::Background => Seq::empty(),
        Cell::Foreground { custom_glyph, glyph0, glyph1, color } => {
            let lum = spec_luminance(color);
            match glyph1 {
                Some(g) => seq![
                    spec_choose_glyph(custom_glyph, glyph0, lum),
                    spec_choose_glyph(custom_glyph, g, lum),
                ],
                None => seq![spec_choose_glyph(custom_glyph, glyph0, lum)],
            }
        },
    }
}

/// The first `n` sampled cells of row `row`, each `step` columns apart.
pub open spec fn spec_nocolor_row(cells: Seq<Cell>, row: int, n: int, step: int) -> Seq<char>
    decreases n,
{
    if n <= 0 {
        Seq::empty()
    } else {
        spec_nocolor_row(cells, row, n - 1, step) + spec_nocolor_cell(
            cells[row * 64 + (n - 1) * step],
        )
    }
}

/// The first `n` sampled rows, each `step` rows apart and `cols` samples
/// wide, every row ended by a carriage-return line-feed pair.
pub open spec fn spec_nocolor_rows(cells: Seq<Cell>, n: int, step: int, cols: int) -> Seq<char>
    decreases n,
{
    if n <= 0 {
        Seq::empty()
    } else {
        spec_nocolor_rows(cells, n - 1, step, cols) + spec_nocolor_row(
            cells,
            (n - 1) * step,
            cols,
            step,
        ) + "\r\n"@
    }
}

/// The full-resolution colorless rendering: the full-screen redraw escape,
/// then every row of the grid.
pub open spec fn spec_render_nocolor(cells: Seq<Cell>) -> Seq<char> {
    "\x1b[2J\x1b[1;1H"@ + spec_nocolor_rows(cells, 64, 1, 64)
}

/// The half-resolution colorless rendering: every other row and column.
pub open spec fn spec_render_nocolor_small(cells: Seq<Cell>) -> Seq<char> {
    "\x1b[2J\x1b[1;1H"@ + spec_nocolor_rows(cells, 32, 2, 32)
}

impl Term {
    fn nocolor_output(&self, rows: usize, step: usize, cols: usize) -> (out: String)
        requires
            self.wf(),
            step >= 1,
            rows * step <= 64,
            cols * step <= 64,
        ensures
            out@ == "\x1b[2J\x1b[1;1H"@ + spec_nocolor_rows(
                self@,
                rows as int,
                step as int,
                cols as int,
            ),
    {
        let mut out = String::new();
        out.append("\x1b[2J\x1b[1;1H");
        let mut r: usize = 0;
        while r < rows
            invariant
                r <= rows,
                self.wf(),
                step >= 1,
                rows * step <= 64,
                cols * step <= 64,
                out@ == "\x1b[2J\x1b[1;1H"@ + spec_nocolor_rows(
                    self@,
                    r as int,
                    step as int,
                    cols as int,
                ),
            decreases rows - r,
        {
            proof {
                assert(r * step + step <= 64) by (nonlinear_arith)
                    requires
                        r < rows,
                        step >= 1,
                        rows * step <= 64,
                ;
            }
            let row = r * step;
            let mut c: usize = 0;
            while c < cols
                invariant
                    c <= cols,
                    r < rows,
                    row == r * step,
                    self.wf(),
                    step >= 1,
                    rows * step <= 64,
                    cols * step <= 64,
                    out@ == "\x1b[2J\x1b[1;1H"@ + spec_nocolor_rows(
                        self@,
                        r as int,
                        step as int,
                        cols as int,
                    ) + spec_nocolor_row(self@, row as int, c as int, step as int),
                decreases cols - c,
            {
                proof {
                    assert(c * step < 64 && row < 64) by (nonlinear_arith)
                        requires
                            row == r as int * step,
                            r < rows,
                            c < cols,
                            step >= 1,
                            rows * step <= 64,
                            cols * step <= 64,
                    ;
                }
                let cell = self.get(c * step, row);
                match cell {
                    Cell::Background => {},
                    Cell::Foreground { custom_glyph, glyph0, glyph1, color } => {
                        let lum = cell_luminance(color);
                        push_char(&mut out, choose_glyph(custom_glyph, glyph0, lum));
                        match glyph1 {
                            Some(g) => {
                                push_char(&mut out, choose_glyph(custom_glyph, g, lum));
                            },
                            None => {},
                        }
                    },
                }
                proof {
                    assert(out@ =~= "\x1b[2J\x1b[1;1H"@ + spec_nocolor_rows(
                        self@,
                        r as int,
                        step as int,
                        cols as int,
                    ) + spec_nocolor_row(self@, row as int, c as int + 1, step as int));
                }
                c = c + 1;
            }
            out.append("\r\n");
            proof {
                assert(out@ =~= "\x1b[2J\x1b[1;1H"@ + spec_nocolor_rows(
                    self@,
                    r as int + 1,
                    step as int,
                    cols as int,
                ));
            }
            r = r + 1;
        }
        out
    }

    /// The colorless full-resolution rendering of this grid, as the text
    /// written to a simple viewer.
    pub fn render_stream_nocolor(&self) -> (out: String)
        requires
            self.wf(),
        ensures
            out@ == spec_render_nocolor(self@),
    {
        self.nocolor_output(64, 1, 64)
    }

    /// The colorless half-resolution rendering of this grid (every other
    /// row and column), as the text sent to the rebroadcast sink.
    pub fn render_stream_nocolor_small(&self) -> (out: String)
        requires
            self.wf(),
        ensures
            out@ == spec_render_nocolor_small(self@),
    {
        self.nocolor_output(32, 2, 32)
    }
}

/// The display word of the classic render mode: a fixed word per detected
/// region (eyes, grayscale shirt, dark coat, red mouth), else the caller's
/// word.
pub open spec fn spec_classic_word(c: (u8, u8, u8), word: Seq<char>) -> Seq<char> {
    let (r, g, b) = c;
    if g > r && g > b {
        "I"@
    } else if r == g && r == b {
        "#"@
    } else if r < 50 && g < 50 && b < 50 {
        "COAT"@
    } else if r > 210 && g < 180 && b < 180 {
        "o"@
    } else {
        word
    }
}

/// Pick the classic-mode display word for a sampled color.
pub fn classic_word(c: (u8, u8, u8), word: &str) -> (r: String)
    ensures
        r@ == spec_classic_word(c, word@),
{
    let (cr, cg, cb) = c;
    if cg > cr && cg > cb {
        "I".to_owned()
    } else if cr == cg && cr == cb {
        "#".to_owned()
    } else if cr < 50 && cg < 50 && cb < 50 {
        "COAT".to_owned()
    } else if cr > 210 && cg < 180 && cb < 180 {
        "o".to_owned()
    } else {
        word.to_owned()
    }
}

/// The display word of the shadow render mode: the watching word over eye
/// regions, the base word elsewhere.
pub open spec fn spec_shadow_word(c: (u8, u8, u8)) -> Seq<char> {
    let (r, g, b) = c;
    if g > r && g > b {
        "ISEEYOU"@
    } else {
        "hcolonw"@
    }
}

/// The display color of the shadow render mode: red over eye regions, gray
/// elsewhere.
pub open spec fn spec_shadow_color(c: (u8, u8, u8)) -> (u8, u8, u8) {
    let (r, g, b) = c;
    if g > r && g > b {
        (255u8, 0u8, 0u8)
    } else {
        (100u8, 100u8, 100u8)
    }
}

/// Pick the shadow-mode display word and color for a sampled color.
pub fn shadow_word_color(c: (u8, u8, u8)) -> (r: (String, (u8, u8, u8)))
    ensures
        r.0@ == spec_shadow_word(c),
        r.1 == spec_shadow_color(c),
{
    let (cr, cg, cb) = c;
    if cg > cr && cg > cb {
        ("ISEEYOU".to_owned(), (255u8, 0u8, 0u8))
    } else {
        ("hcolonw".to_owned(), (100u8, 100u8, 100u8))
    }
}

} // verus!
