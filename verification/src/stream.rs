//! The publishing cadence: periodic repopulation, and the keyframe/diff
//! cycle with periodic resynchronization.
use vstd::prelude::*;

use crate::codec::{
    gunzip_of, gzip_of, spec_diff_frame_bytes, spec_full_frame_bytes,
};
use crate::diff::{diff_pos, diff_wf, spec_grid_diff, Diff};
use crate::grid::{Term, GRID_CELLS};
use crate::palette::Palette;
use crate::render::{spec_rendered_cell, Framebuffer, VideoFrames};

verus! {

/// Published frames cycle through this many slots; the first of each cycle
/// is a self-contained keyframe.
pub const KEYFRAME_PERIOD: usize = 10;

/// Ticks on which the grid is repopulated and the local view redrawn.
pub open spec fn spec_render_tick(fc: int) -> bool {
    fc % 6 == 0
}

/// Ticks on which a network frame is published and the rebroadcast sink
/// written.
pub open spec fn spec_publish_tick(fc: int) -> bool {
    fc % 12 == 0
}

/// Whether tick `fc` repopulates the grid and redraws the local view.
pub fn is_render_tick(fc: i32) -> (r: bool)
    requires
        fc >= 0,
    ensures
        r == spec_render_tick(fc as int),
{
    fc % 6 == 0
}

/// Whether tick `fc` publishes a network frame.
pub fn is_publish_tick(fc: i32) -> (r: bool)
    requires
        fc >= 0,
    ensures
        r == spec_publish_tick(fc as int),
{
    fc % 12 == 0
}

proof fn lemma_diff_pos_ge_index(d: Seq<(u8, u8, crate::grid::Cell)>, i: int)
    requires
        diff_wf(d),
        0 <= i < d.len(),
    ensures
        diff_pos(d[i]) >= i,
    decreases i,
{
    if i > 0 {
        lemma_diff_pos_ge_index(d, i - 1);
        assert(diff_pos(d[i - 1]) < diff_pos(d[i]));
    }
}

/// A well-formed diff names each grid coordinate at most once, so it cannot
/// hold more triples than the grid holds cells.
pub proof fn lemma_diff_len_bound(d: Seq<(u8, u8, crate::grid::Cell)>)
    requires
        diff_wf(d),
    ensures
        d.len() <= GRID_CELLS,
{
    if d.len() > GRID_CELLS {
        lemma_diff_pos_ge_index(d, GRID_CELLS as int);
        assert(diff_pos(d[GRID_CELLS as int]) <= 63 * 64 + 63);
    }
}

/// Drives the per-tick publishing cycle: the grid being written this tick,
/// the last published grid, and the cyclic keyframe counter.
pub struct Streamer {
    pub current: Term,
    pub previous: Term,
    pub keyframe_counter: usize,
    pub term_counter: usize,
    /// How many network frames have been published so far.
    pub published: Ghost<nat>,
}

impl Streamer {
    /// Both grids are proper grids and the keyframe counter tracks the
    /// number of published frames modulo the keyframe period.
    pub open spec fn wf(&self) -> bool {
        &&& self.current.wf()
        &&& self.previous.wf()
        &&& self.keyframe_counter == self.published@ % (KEYFRAME_PERIOD as nat)
    }

    /// A streamer at stream start: both grids all background, nothing
    /// published yet.
    pub fn new() -> (r: Streamer)
        ensures
            r.wf(),
            r.published@ == 0,
            r.keyframe_counter == 0,
            r.term_counter == 0,
            forall|i: int| 0 <= i < GRID_CELLS ==> r.current@[i] == crate::grid::Cell::Background,
            forall|i: int| 0 <= i < GRID_CELLS ==> r.previous@[i] == crate::grid::Cell::Background,
    {
        Streamer {
            current: Term::new(),
            previous: Term::new(),
            keyframe_counter: 0,
            term_counter: 0,
            published: Ghost(0),
        }
    }

    /// Repopulate the current grid from the pixel source and advance the
    /// population counter.
    pub fn populate(
        &mut self,
        fb: &Framebuffer,
        bg: (i32, i32, i32),
        framecount: i32,
        videos: &VideoFrames,
        palette: &Palette,
    )
        requires
            old(self).wf(),
            old(self).term_counter < usize::MAX,
            fb.wf(),
            fb.width == 64,
            fb.height == 64,
            0 <= bg.0 <= 255,
            0 <= bg.1 <= 255,
            0 <= bg.2 <= 255,
            framecount >= 0,
            videos.wf(),
            palette.wf(),
        ensures
            final(self).wf(),
            final(self).term_counter == old(self).term_counter + 1,
            final(self).current.count == old(self).term_counter,
            forall|p: int|
                0 <= p < GRID_CELLS ==> final(self).current@[p] == spec_rendered_cell(
                    fb,
                    bg,
                    framecount as int,
                    videos,
                    palette,
                    p / 64,
                    p % 64,
                ),
            final(self).previous == old(self).previous,
            final(self).keyframe_counter == old(self).keyframe_counter,
            final(self).published == old(self).published,
    {
        let c = self.term_counter;
        fb.render_term(bg, framecount, videos, palette, &mut self.current, c);
        self.term_counter = self.term_counter + 1;
    }

    /// Publish one network frame: a compressed full frame on the first slot
    /// of each keyframe cycle, a compressed diff against the last published
    /// grid otherwise. The published grid becomes the new reference and the
    /// keyframe counter advances, so with the counter starting at zero,
    /// publication `n` is a full frame exactly when `n` is a multiple of
    /// the keyframe period.
    pub fn publish(&mut self) -> (r: (Vec<u8>, bool))
        requires
            old(self).wf(),
        ensures
            final(self).wf(),
            final(self).published@ == old(self).published@ + 1,
            final(self).keyframe_counter == (old(self).keyframe_counter + 1) % (
            KEYFRAME_PERIOD as int),
            final(self).previous@ == old(self).current@,
            final(self).current == old(self).current,
            final(self).term_counter == old(self).term_counter,
            r.1 == (old(self).published@ % (KEYFRAME_PERIOD as nat) == 0),
            r.1 ==> r.0@ == gzip_of(spec_full_frame_bytes(old(self).current@)) && gunzip_of(r.0@)
                == Some(spec_full_frame_bytes(old(self).current@)),
            !r.1 ==> r.0@ == gzip_of(
                spec_diff_frame_bytes(spec_grid_diff(old(self).previous@, old(self).current@)),
            ) && gunzip_of(r.0@) == Some(
                spec_diff_frame_bytes(spec_grid_diff(old(self).previous@, old(self).current@)),
            ),
    {
        let is_key = self.keyframe_counter == 0;
        let frame = if is_key {
            self.current.serialize_and_compress()
        } else {
            let d = Diff::new(&self.previous, &self.current);
            proof {
                lemma_diff_len_bound(d.diff@);
            }
            d.serialize_and_compress()
        };
        self.previous.copy_from(&self.current);
        self.keyframe_counter = (self.keyframe_counter + 1) % KEYFRAME_PERIOD;
        self.published = Ghost(self.published@ + 1);
        (frame, is_key)
    }
}

} // verus!
