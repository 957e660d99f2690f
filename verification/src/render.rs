//! Sampling the rendered pixel buffer, resolving entry colors, and
//! populating the glyph grid from it.
use vstd::prelude::*;

use crate::glyph::{compose_cell, spec_compose_cell};
use crate::grid::{Cell, Term};
use crate::palette::{
    spec_category_index, spec_classify, EntryModel, Palette, PaletteEntry, PaletteType,
    CATEGORY_COUNT,
};

verus! {

/// A rectangular RGBA pixel buffer read back from the renderer, stored
/// column-major from the right edge as the renderer delivers it.
pub struct Framebuffer {
    pub width: i32,
    pub height: i32,
    pub pixels: Vec<u8>,
}

impl Framebuffer {
    /// Dimensions small enough that pixel indexing cannot overflow.
    pub open spec fn wf(&self) -> bool {
        &&& 0 <= self.width <= 4096
        &&& 0 <= self.height <= 4096
    }

    /// A buffer of the given dimensions, zeroed.
    pub fn new(width: i32, height: i32) -> (r: Framebuffer)
        requires
            0 <= width <= 4096,
            0 <= height <= 4096,
        ensures
            r.wf(),
            r.width == width,
            r.height == height,
            r.pixels@.len() == width * height * 4,
            forall|i: int| 0 <= i < r.pixels@.len() ==> r.pixels@[i] == 0u8,
    {
        proof {
            assert(0 <= width * height * 4 <= 4096 * 4096 * 4) by (nonlinear_arith)
                requires
                    0 <= width <= 4096,
                    0 <= height <= 4096,
            ;
        }
        let len = (width * height * 4) as usize;
        let mut pixels: Vec<u8> = Vec::new();
        let mut i: usize = 0;
        while i < len
            invariant
                i <= len,
                pixels@.len() == i,
                forall|j: int| 0 <= j < i ==> pixels@[j] == 0u8,
            decreases len - i,
        {
            pixels.push(0u8);
            i = i + 1;
        }
        Framebuffer { width, height, pixels }
    }

    /// Replace the pixel contents with a buffer the renderer read back.
    pub fn load_pixels(&mut self, pixels: Vec<u8>)
        ensures
            final(self).width == old(self).width,
            final(self).height == old(self).height,
            final(self).pixels@ == pixels@,
    {
        self.pixels = pixels;
    }

    /// The sampled color at `(x, y)`: the RGB bytes at the flipped index,
    /// unless the coordinate is out of range, the index reaches past the
    /// buffer, or the color equals the background key.
    pub open spec fn spec_pixel(&self, bg: (i32, i32, i32), x: int, y: int) -> Option<
        (u8, u8, u8),
    > {
        if x < 0 || x > self.width || y < 0 || y > self.height {
            None
        } else {
            let invx = self.width - (x + 1);
            if invx < 0 {
                None
            } else {
                let base = invx * 4 * self.height + y * 4;
                if base > self.width * self.height * 4 {
                    None
                } else if base + 2 >= self.pixels@.len() {
                    None
                } else {
                    let r = self.pixels@[base];
                    let g = self.pixels@[base + 1];
                    let b = self.pixels@[base + 2];
                    if r == bg.0 && g == bg.1 && b == bg.2 {
                        None
                    } else {
                        Some((r, g, b))
                    }
                }
            }
        }
    }

    /// Sample the buffer at `(x, y)` against the background key `bg`.
    pub fn get_pixel(&self, bg: (i32, i32, i32), x: i32, y: i32) -> (r: Option<(u8, u8, u8)>)
        requires
            self.wf(),
            0 <= bg.0 <= 255,
            0 <= bg.1 <= 255,
            0 <= bg.2 <= 255,
            x > i32::MIN,
        ensures
            r == self.spec_pixel(bg, x as int, y as int),
    {
        let w = self.width;
        let h = self.height;
        if x < 0 || x > w || y < 0 || y > h {
            return None;
        }
        let invx = w - (x + 1);
        if invx < 0 {
            return None;
        }
        proof {
            assert(0 <= invx * 4 * h <= 4096 * 4 * 4096 && 0 <= w * h * 4 <= 4096 * 4096 * 4)
                by (nonlinear_arith)
                requires
                    0 <= invx <= 4096,
                    0 <= h <= 4096,
                    0 <= w <= 4096,
            ;
        }
        let base = (invx * 4 * h + y * 4) as usize;
        if base > (w * h * 4) as usize {
            return None;
        }
        let n = self.pixels.len();
        if base + 2 >= n {
            return None;
        }
        let r = self.pixels[base];
        let g = self.pixels[base + 1];
        let b = self.pixels[base + 2];
        if r == (bg.0 as u8) && g == (bg.1 as u8) && b == (bg.2 as u8) {
            None
        } else {
            Some((r, g, b))
        }
    }

    /// The occupancy bitmask of the 8 neighbors of `(x, y)`: one bit per
    /// neighbor that holds a sampled (non-background) color, ordered
    /// NW,N,NE,W,E,SW,S,SE from the high bit down.
    pub open spec fn spec_occupancy(&self, bg: (i32, i32, i32), x: int, y: int) -> u8 {
        let b7: u8 = if self.spec_pixel(bg, x - 1, y - 1) is Some {
            0x80
        } else {
            0
        };
        let b6: u8 = if self.spec_pixel(bg, x - 1, y) is Some {
            0x40
        } else {
            0
        };
        let b5: u8 = if self.spec_pixel(bg, x - 1, y + 1) is Some {
            0x20
        } else {
            0
        };
        let b4: u8 = if self.spec_pixel(bg, x, y - 1) is Some {
            0x10
        } else {
            0
        };
        let b3: u8 = if self.spec_pixel(bg, x, y + 1) is Some {
            0x08
        } else {
            0
        };
        let b2: u8 = if self.spec_pixel(bg, x + 1, y - 1) is Some {
            0x04
        } else {
            0
        };
        let b1: u8 = if self.spec_pixel(bg, x + 1, y) is Some {
            0x02
        } else {
            0
        };
        let b0: u8 = if self.spec_pixel(bg, x + 1, y + 1) is Some {
            0x01
        } else {
            0
        };
        b7 | b6 | b5 | b4 | b3 | b2 | b1 | b0
    }

    /// Compute the neighbor occupancy bitmask of `(x, y)`.
    pub fn get_surrounding(&self, bg: (i32, i32, i32), x: i32, y: i32) -> (r: u8)
        requires
            self.wf(),
            0 <= bg.0 <= 255,
            0 <= bg.1 <= 255,
            0 <= bg.2 <= 255,
            i32::MIN < x - 1,
            x < i32::MAX,
            i32::MIN < y - 1,
            y < i32::MAX,
        ensures
            r == self.spec_occupancy(bg, x as int, y as int),
    {
        let b7: u8 = if self.get_pixel(bg, x - 1, y - 1).is_some() {
            0x80
        } else {
            0
        };
        let b6: u8 = if self.get_pixel(bg, x - 1, y).is_some() {
            0x40
        } else {
            0
        };
        let b5: u8 = if self.get_pixel(bg, x - 1, y + 1).is_some() {
            0x20
        } else {
            0
        };
        let b4: u8 = if self.get_pixel(bg, x, y - 1).is_some() {
            0x10
        } else {
            0
        };
        let b3: u8 = if self.get_pixel(bg, x, y + 1).is_some() {
            0x08
        } else {
            0
        };
        let b2: u8 = if self.get_pixel(bg, x + 1, y - 1).is_some() {
            0x04
        } else {
            0
        };
        let b1: u8 = if self.get_pixel(bg, x + 1, y).is_some() {
            0x02
        } else {
            0
        };
        let b0: u8 = if self.get_pixel(bg, x + 1, y + 1).is_some() {
            0x01
        } else {
            0
        };
        b7 | b6 | b5 | b4 | b3 | b2 | b1 | b0
    }
}

/// One frame of a live external video source, as an RGBA buffer wider than
/// the grid, sampled with the grid columns centered horizontally.
pub struct VideoFrame {
    pub width: i32,
    pub height: i32,
    pub pixels: Vec<u8>,
}

impl VideoFrame {
    /// At least as wide as the grid, and small enough that indexing cannot
    /// overflow.
    pub open spec fn wf(&self) -> bool {
        &&& 64 <= self.width <= 4096
        &&& 0 <= self.height <= 4096
    }

    /// The sampled color at grid coordinate `(x, y)`: the RGB bytes at the
    /// row-flipped, horizontally centered index, each channel defaulting to
    /// zero where the buffer ends.
    pub open spec fn spec_sample(&self, x: int, y: int) -> (u8, u8, u8) {
        let offsetx = (self.width - 64) / 2;
        let invx = self.height - (x + 1);
        if invx < 0 {
            (0u8, 0u8, 0u8)
        } else {
            let idx = self.width * invx * 4 + (offsetx + y) * 4;
            let r = if idx < self.pixels@.len() {
                self.pixels@[idx]
            } else {
                0u8
            };
            let g = if idx + 1 < self.pixels@.len() {
                self.pixels@[idx + 1]
            } else {
                0u8
            };
            let b = if idx + 2 < self.pixels@.len() {
                self.pixels@[idx + 2]
            } else {
                0u8
            };
            (r, g, b)
        }
    }

    /// Sample this frame at grid coordinate `(x, y)`.
    pub fn get_pixel(&self, x: i32, y: i32) -> (r: (u8, u8, u8))
        requires
            self.wf(),
            0 <= x < 4096,
            0 <= y < 64,
        ensures
            r == self.spec_sample(x as int, y as int),
    {
        let offsetx = (self.width - 64) / 2;
        let invx = self.height - (x + 1);
        if invx < 0 {
            return (0u8, 0u8, 0u8);
        }
        proof {
            assert(0 <= self.width * invx * 4 <= 4096 * 4096 * 4) by (nonlinear_arith)
                requires
                    0 <= invx <= 4096,
                    64 <= self.width <= 4096,
            ;
        }
        let idx = (self.width * invx * 4 + (offsetx + y) * 4) as usize;
        let n = self.pixels.len();
        let r = if idx < n {
            self.pixels[idx]
        } else {
            0u8
        };
        let g = if idx + 1 < n {
            self.pixels[idx + 1]
        } else {
            0u8
        };
        let b = if idx + 2 < n {
            self.pixels[idx + 2]
        } else {
            0u8
        };
        (r, g, b)
    }
}

/// The current frame of each category's live video source, where one plays.
pub struct VideoFrames {
    pub frames: Vec<Option<VideoFrame>>,
}

impl VideoFrames {
    /// One slot per category; every present frame is well-formed.
    pub open spec fn wf(&self) -> bool {
        &&& self.frames@.len() == CATEGORY_COUNT
        &&& forall|i: int|
            0 <= i < CATEGORY_COUNT ==> match #[trigger] self.frames@[i] {
                None => true,
                Some(f) => f.wf(),
            }
    }

    /// The frame playing for category `t`, if any.
    pub open spec fn spec_frame(&self, t: PaletteType) -> Option<VideoFrame> {
        self.frames@[spec_category_index(t)]
    }

    /// No video playing on any category.
    pub fn new() -> (r: VideoFrames)
        ensures
            r.wf(),
            forall|i: int| 0 <= i < CATEGORY_COUNT ==> r.frames@[i] is None,
    {
        let mut frames: Vec<Option<VideoFrame>> = Vec::new();
        let mut i: usize = 0;
        while i < CATEGORY_COUNT
            invariant
                i <= CATEGORY_COUNT,
                frames@.len() == i,
                forall|j: int| 0 <= j < i ==> frames@[j] is None,
            decreases CATEGORY_COUNT - i,
        {
            frames.push(None);
            i = i + 1;
        }
        VideoFrames { frames }
    }

    /// Install the current frame of category `t`'s video source.
    pub fn set_frame(&mut self, t: PaletteType, f: VideoFrame)
        requires
            old(self).wf(),
            f.wf(),
        ensures
            final(self).wf(),
            final(self).frames@ == old(self).frames@.update(spec_category_index(t), Some(f)),
    {
        let i = t.index();
        self.frames.set(i, Some(f));
    }

    /// Drop the video frame of category `t`.
    pub fn clear_frame(&mut self, t: PaletteType)
        requires
            old(self).wf(),
        ensures
            final(self).wf(),
            final(self).frames@ == old(self).frames@.update(
                spec_category_index(t),
                None::<VideoFrame>,
            ),
    {
        let i = t.index();
        self.frames.set(i, None);
    }
}

/// The effective cell color for entry `e` at grid coordinate `(x, y)` on
/// tick `fc`: the entry's own color, a tiled pattern or animation pixel with
/// the sampled color as fallback, or a live video sample with the sampled
/// color as fallback when no video plays.
pub open spec fn spec_resolved_color(
    e: EntryModel,
    col: (u8, u8, u8),
    x: int,
    y: int,
    fc: int,
    videos: &VideoFrames,
) -> (u8, u8, u8) {
    match e {
        EntryModel::Color(c) => c,
        EntryModel::Pattern { width, height, pixels } => {
            let idx = (x % height) * width + (y % width);
            if 0 <= idx < pixels.len() {
                pixels[idx]
            } else {
                col
            }
        },
        EntryModel::Animation { delay, width, height, frames } => {
            let d = if delay < 1 {
                1
            } else {
                delay
            };
            let pixels = frames[(fc / d) % frames.len() as int];
            let idx = (x % height) * width + (y % width);
            if 0 <= idx < pixels.len() {
                pixels[idx]
            } else {
                col
            }
        },
        EntryModel::Video => match spec_classify(col) {
            None => col,
            Some(t) => match videos.spec_frame(t) {
                None => col,
                Some(f) => f.spec_sample(x, y),
            },
        },
    }
}

/// Resolve the effective cell color of `entry` (see
/// [`spec_resolved_color`]).
pub fn resolve_entry_color(
    entry: &PaletteEntry,
    col: (u8, u8, u8),
    x: i32,
    y: i32,
    framecount: i32,
    videos: &VideoFrames,
) -> (r: (u8, u8, u8))
    requires
        entry.wf(),
        videos.wf(),
        0 <= x < 64,
        0 <= y < 64,
        framecount >= 0,
    ensures
        r == spec_resolved_color(entry@, col, x as int, y as int, framecount as int, videos),
{
    match entry {
        PaletteEntry::Color(c) => *c,
        PaletteEntry::Pattern { width, height, pixels } => {
            let w = *width;
            let h = *height;
            proof {
                assert(0 <= (x as int % h as int) * w + (y as int % w as int) < 0x7FFF_FFFF)
                    by (nonlinear_arith)
                    requires
                        0 < w <= 0xB504,
                        0 < h <= 0xB504,
                        0 <= x,
                        0 <= y,
                ;
            }
            let idx = ((x % h) * w + (y % w)) as usize;
            match pixels.get(idx) {
                Some(pcol) => *pcol,
                None => col,
            }
        },
        PaletteEntry::Animation { delay, width, height, frames } => {
            let w = *width;
            let h = *height;
            let d = if *delay < 1 {
                1
            } else {
                *delay
            };
            let fi = ((framecount / d) % (frames.len() as i32)) as usize;
            let pixels = &frames[fi];
            proof {
                assert(0 <= (x as int % h as int) * w + (y as int % w as int) < 0x7FFF_FFFF)
                    by (nonlinear_arith)
                    requires
                        0 < w <= 0xB504,
                        0 < h <= 0xB504,
                        0 <= x,
                        0 <= y,
                ;
                assert(crate::palette::frames_views(frames@)[fi as int] == frames@[fi as int]@);
            }
            let idx = ((x % h) * w + (y % w)) as usize;
            match pixels.get(idx) {
                Some(pcol) => *pcol,
                None => col,
            }
        },
        PaletteEntry::Video => {
            match PaletteType::from_color(col) {
                None => col,
                Some(t) => {
                    let i = t.index();
                    match &videos.frames[i] {
                        None => col,
                        Some(f) => f.get_pixel(x, y),
                    }
                },
            }
        },
    }
}

/// The cell that populating the grid writes for framebuffer coordinate
/// `(x, y)` (stored at flat grid position `x * 64 + y`): background where no
/// color was sampled, otherwise the composed glyph pair, with the cyclic
/// word index advanced two characters per scanned cell.
pub open spec fn spec_rendered_cell(
    fb: &Framebuffer,
    bg: (i32, i32, i32),
    fc: int,
    videos: &VideoFrames,
    palette: &Palette,
    x: int,
    y: int,
) -> Cell {
    match fb.spec_pixel(bg, x, y) {
        None => Cell::Background,
        Some(col) => spec_compose_cell(
            palette.spec_lookup_word(col),
            palette.spec_lookup_custom(col),
            2 * (x * 64 + y),
            fb.spec_occupancy(bg, x, y),
            spec_resolved_color(palette.spec_lookup_entry(col), col, x, y, fc, videos),
        ),
    }
}

impl Framebuffer {
    /// Populate grid `t` from this buffer: classify each sampled pixel,
    /// resolve its entry color, compose its glyph pair under the neighbor
    /// occupancy mask, and store the population counter `c`.
    pub fn render_term(
        &self,
        bg: (i32, i32, i32),
        framecount: i32,
        videos: &VideoFrames,
        palette: &Palette,
        t: &mut Term,
        c: usize,
    )
        requires
            self.wf(),
            self.width == 64,
            self.height == 64,
            0 <= bg.0 <= 255,
            0 <= bg.1 <= 255,
            0 <= bg.2 <= 255,
            framecount >= 0,
            videos.wf(),
            palette.wf(),
            old(t).wf(),
        ensures
            final(t).wf(),
            final(t).count == c,
            forall|p: int|
                0 <= p < 4096 ==> final(t)@[p] == spec_rendered_cell(
                    self,
                    bg,
                    framecount as int,
                    videos,
                    palette,
                    p / 64,
                    p % 64,
                ),
    {
        let mut x: i32 = 0;
        while x < 64
            invariant
                0 <= x <= 64,
                self.wf(),
                self.width == 64,
                self.height == 64,
                0 <= bg.0 <= 255,
                0 <= bg.1 <= 255,
                0 <= bg.2 <= 255,
                framecount >= 0,
                videos.wf(),
                palette.wf(),
                t.wf(),
                forall|p: int|
                    0 <= p < x * 64 ==> t@[p] == spec_rendered_cell(
                        self,
                        bg,
                        framecount as int,
                        videos,
                        palette,
                        p / 64,
                        p % 64,
                    ),
            decreases 64 - x,
        {
            let mut y: i32 = 0;
            while y < 64
                invariant
                    0 <= x < 64,
                    0 <= y <= 64,
                    self.wf(),
                    self.width == 64,
                    self.height == 64,
                    0 <= bg.0 <= 255,
                    0 <= bg.1 <= 255,
                    0 <= bg.2 <= 255,
                    framecount >= 0,
                    videos.wf(),
                    palette.wf(),
                    t.wf(),
                    forall|p: int|
                        0 <= p < x * 64 + y ==> t@[p] == spec_rendered_cell(
                            self,
                            bg,
                            framecount as int,
                            videos,
                            palette,
                            p / 64,
                            p % 64,
                        ),
                decreases 64 - y,
            {
                let cell = match self.get_pixel(bg, x, y) {
                    Some(col) => {
                        let (custom, word, entry) = palette.lookup(col);
                        let color = resolve_entry_color(&entry, col, x, y, framecount, videos);
                        let mask = self.get_surrounding(bg, x, y);
                        let base = (2 * (x * 64 + y)) as usize;
                        compose_cell(word.as_str(), custom, base, mask, color)
                    },
                    None => Cell::Background,
                };
                t.set_cell(y as usize, x as usize, cell);
                proof {
                    let p = x as int * 64 + y as int;
                    assert(p / 64 == x as int && p % 64 == y as int) by (nonlinear_arith)
                        requires
                            0 <= x < 64,
                            0 <= y < 64,
                            p == x as int * 64 + y as int,
                    ;
                }
                y = y + 1;
            }
            x = x + 1;
        }
        t.count = c;
    }
}

} // verus!
