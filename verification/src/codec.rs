//! Binary encoding of grids and diffs, and the compressed network frames.
//!
//! Wire layout (all multi-byte integers big-endian):
//! - full frame: tag `0x00`, then all `GRID_CELLS` cells in row-major order;
//! - diff frame: tag `0x01`, a 4-byte triple count, then `x`, `y`, cell per triple;
//! - cell: `0x00` for background; `0x01`, a custom-glyph byte, 3 color bytes,
//!   4 bytes of first glyph code point, then `0x00`, or `0x01` plus 4 bytes of
//!   second glyph code point.
use vstd::prelude::*;

use crate::diff::{diff_coords_ok, spec_apply_diff, Diff};
use crate::grid::{Cell, Term, GRID_CELLS};

verus! {

/// Big-endian byte quartet of `v`.
pub open spec fn spec_be32(v: u32) -> Seq<u8> {
    seq![(v >> 24) as u8, (v >> 16) as u8, (v >> 8) as u8, v as u8]
}

/// The `u32` whose big-endian bytes start at `pos` in `b`.
pub open spec fn spec_be32_at(b: Seq<u8>, pos: int) -> u32 {
    ((b[pos] as u32) << 24) | ((b[pos + 1] as u32) << 16) | ((b[pos + 2] as u32) << 8) | (b[pos
        + 3] as u32)
}

proof fn lemma_be32_recombine(v: u32)
    ensures
        (((v >> 24) as u8 as u32) << 24) | (((v >> 16) as u8 as u32) << 16) | (((v
            >> 8) as u8 as u32) << 8) | (v as u8 as u32) == v,
{
    assert((((v >> 24) as u8 as u32) << 24) | (((v >> 16) as u8 as u32) << 16) | (((v
        >> 8) as u8 as u32) << 8) | (v as u8 as u32) == v) by (bit_vector);
}

fn push_be32(out: &mut Vec<u8>, v: u32)
    ensures
        final(out)@ == old(out)@ + spec_be32(v),
{
    out.push((v >> 24) as u8);
    out.push((v >> 16) as u8);
    out.push((v >> 8) as u8);
    out.push(v as u8);
    proof {
        assert(final(out)@ =~= old(out)@ + spec_be32(v));
    }
}

fn read_be32(b: &Vec<u8>, pos: usize) -> (r: u32)
    requires
        pos + 4 <= b@.len(),
    ensures
        r == spec_be32_at(b@, pos as int),
{
    let n = b.len();
    let b0 = b[pos];
    let b1 = b[pos + 1];
    let b2 = b[pos + 2];
    let b3 = b[pos + 3];
    ((b0 as u32) << 24) | ((b1 as u32) << 16) | ((b2 as u32) << 8) | (b3 as u32)
}

/// Code points that name a Unicode scalar value (everything but surrogates).
pub open spec fn spec_char_code_valid(v: u32) -> bool {
    v < 0xD800 || (0xE000 <= v && v <= 0x10FFFF)
}

/// Relies on `char::from_u32` of std: it returns `Some` exactly for valid
/// Unicode scalar values, giving the character with that code point.
pub assume_specification[ char::from_u32 ](v: u32) -> (r: Option<char>)
    ensures
        r is Some <==> spec_char_code_valid(v),
        (r matches Some(c) ==> c as u32 == v),
;

/// Serialized bytes of one cell.
pub open spec fn spec_cell_bytes(c: Cell) -> Seq<u8> {
    match c {
        Cell::Background => seq![0u8],
        Cell::Foreground { custom_glyph, glyph0, glyph1, color } => seq![
            1u8,
            if custom_glyph {
                1u8
            } else {
                0u8
            },
            color.0,
            color.1,
            color.2,
        ] + spec_be32(glyph0 as u32) + match glyph1 {
            None => seq![0u8],
            Some(g) => seq![1u8] + spec_be32(g as u32),
        },
    }
}

/// Serialized bytes of a sequence of cells, in order.
pub open spec fn spec_cells_bytes(cs: Seq<Cell>) -> Seq<u8>
    decreases cs.len(),
{
    if cs.len() == 0 {
        Seq::empty()
    } else {
        spec_cell_bytes(cs[0]) + spec_cells_bytes(cs.drop_first())
    }
}

proof fn lemma_cells_bytes_snoc(cs: Seq<Cell>, c: Cell)
    ensures
        spec_cells_bytes(cs.push(c)) == spec_cells_bytes(cs) + spec_cell_bytes(c),
    decreases cs.len(),
{
    if cs.len() == 0 {
        assert(cs.push(c)[0] == c);
        assert(cs.push(c).drop_first() =~= Seq::<Cell>::empty());
        assert(spec_cells_bytes(cs.push(c).drop_first()) == Seq::<u8>::empty());
        assert(spec_cells_bytes(cs.push(c)) == spec_cell_bytes(c) + Seq::<u8>::empty());
        assert(spec_cells_bytes(cs) == Seq::<u8>::empty());
        assert(spec_cells_bytes(cs.push(c)) =~= spec_cells_bytes(cs) + spec_cell_bytes(c));
    } else {
        assert(cs.push(c).drop_first() =~= cs.drop_first().push(c));
        lemma_cells_bytes_snoc(cs.drop_first(), c);
        assert(cs.push(c)[0] == cs[0]);
        assert(spec_cells_bytes(cs.push(c)) == spec_cell_bytes(cs[0]) + spec_cells_bytes(
            cs.drop_first().push(c),
        ));
        assert(spec_cells_bytes(cs) == spec_cell_bytes(cs[0]) + spec_cells_bytes(cs.drop_first()));
        assert(spec_cells_bytes(cs.push(c)) =~= spec_cells_bytes(cs) + spec_cell_bytes(c));
    }
}

/// Serialized bytes of a full frame: the full-frame tag, then every cell.
pub open spec fn spec_full_frame_bytes(cs: Seq<Cell>) -> Seq<u8> {
    seq![0u8] + spec_cells_bytes(cs)
}

/// Serialized bytes of one diff triple.
pub open spec fn spec_triple_bytes(t: (u8, u8, Cell)) -> Seq<u8> {
    seq![t.0, t.1] + spec_cell_bytes(t.2)
}

/// Serialized bytes of a sequence of diff triples, in order.
pub open spec fn spec_triples_bytes(d: Seq<(u8, u8, Cell)>) -> Seq<u8>
    decreases d.len(),
{
    if d.len() == 0 {
        Seq::empty()
    } else {
        spec_triple_bytes(d[0]) + spec_triples_bytes(d.drop_first())
    }
}

proof fn lemma_triples_bytes_snoc(d: Seq<(u8, u8, Cell)>, t: (u8, u8, Cell))
    ensures
        spec_triples_bytes(d.push(t)) == spec_triples_bytes(d) + spec_triple_bytes(t),
    decreases d.len(),
{
    if d.len() == 0 {
        assert(d.push(t)[0] == t);
        assert(d.push(t).drop_first() =~= Seq::<(u8, u8, Cell)>::empty());
        assert(spec_triples_bytes(d.push(t).drop_first()) == Seq::<u8>::empty());
        assert(spec_triples_bytes(d.push(t)) == spec_triple_bytes(t) + Seq::<u8>::empty());
        assert(spec_triples_bytes(d) == Seq::<u8>::empty());
        assert(spec_triples_bytes(d.push(t)) =~= spec_triples_bytes(d) + spec_triple_bytes(t));
    } else {
        assert(d.push(t).drop_first() =~= d.drop_first().push(t));
        lemma_triples_bytes_snoc(d.drop_first(), t);
        assert(d.push(t)[0] == d[0]);
        assert(spec_triples_bytes(d.push(t)) == spec_triple_bytes(d[0]) + spec_triples_bytes(
            d.drop_first().push(t),
        ));
        assert(spec_triples_bytes(d) == spec_triple_bytes(d[0]) + spec_triples_bytes(
            d.drop_first(),
        ));
        assert(spec_triples_bytes(d.push(t)) =~= spec_triples_bytes(d) + spec_triple_bytes(t));
    }
}

/// Serialized bytes of a diff frame: tag, 4-byte count, then the triples.
pub open spec fn spec_diff_frame_bytes(d: Seq<(u8, u8, Cell)>) -> Seq<u8> {
    seq![1u8] + spec_be32(d.len() as u32) + spec_triples_bytes(d)
}

impl Cell {
    /// Append this cell's serialized bytes to `out`.
    pub fn serialize(&self, out: &mut Vec<u8>)
        ensures
            final(out)@ == old(out)@ + spec_cell_bytes(*self),
    {
        match self {
            Cell::Background => {
                out.push(0u8);
            },
            Cell::Foreground { custom_glyph, glyph0, glyph1, color } => {
                out.push(1u8);
                out.push(if *custom_glyph {
                    1u8
                } else {
                    0u8
                });
                out.push(color.0);
                out.push(color.1);
                out.push(color.2);
                push_be32(out, *glyph0 as u32);
                match glyph1 {
                    Some(g) => {
                        out.push(1u8);
                        push_be32(out, *g as u32);
                    },
                    None => {
                        out.push(0u8);
                    },
                }
            },
        }
        proof {
            assert(final(out)@ =~= old(out)@ + spec_cell_bytes(*self));
        }
    }
}

impl Term {
    /// Serialize this grid as a full frame.
    pub fn serialize(&self) -> (out: Vec<u8>)
        requires
            self.wf(),
        ensures
            out@ == spec_full_frame_bytes(self@),
    {
        let mut out: Vec<u8> = Vec::new();
        out.push(0u8);
        let mut i: usize = 0;
        while i < GRID_CELLS
            invariant
                i <= GRID_CELLS,
                self.wf(),
                out@ == seq![0u8] + spec_cells_bytes(self@.take(i as int)),
            decreases GRID_CELLS - i,
        {
            let c = self.cells[i];
            c.serialize(&mut out);
            proof {
                assert(self@.take(i + 1) =~= self@.take(i as int).push(self@[i as int]));
                lemma_cells_bytes_snoc(self@.take(i as int), self@[i as int]);
                assert(out@ =~= seq![0u8] + spec_cells_bytes(self@.take(i + 1)));
            }
            i = i + 1;
        }
        proof {
            assert(self@.take(GRID_CELLS as int) =~= self@);
        }
        out
    }

    /// Serialize this grid as a full frame and compress the bytes.
    pub fn serialize_and_compress(&self) -> (out: Vec<u8>)
        requires
            self.wf(),
        ensures
            out@ == gzip_of(spec_full_frame_bytes(self@)),
            gunzip_of(out@) == Some(spec_full_frame_bytes(self@)),
    {
        let bytes = self.serialize();
        gzip_compress(&bytes)
    }
}

impl Diff {
    /// Serialize this diff as a diff frame.
    pub fn serialize(&self) -> (out: Vec<u8>)
        requires
            self.diff@.len() < 0x1_0000_0000,
        ensures
            out@ == spec_diff_frame_bytes(self.diff@),
    {
        let mut out: Vec<u8> = Vec::new();
        out.push(1u8);
        push_be32(&mut out, self.diff.len() as u32);
        let n = self.diff.len();
        let mut i: usize = 0;
        while i < n
            invariant
                i <= n,
                n == self.diff@.len(),
                n < 0x1_0000_0000,
                out@ == seq![1u8] + spec_be32(n as u32) + spec_triples_bytes(
                    self.diff@.take(i as int),
                ),
            decreases n - i,
        {
            let (x, y, c) = self.diff[i];
            out.push(x);
            out.push(y);
            c.serialize(&mut out);
            proof {
                let d = self.diff@;
                assert(d.take(i + 1) =~= d.take(i as int).push(d[i as int]));
                lemma_triples_bytes_snoc(d.take(i as int), d[i as int]);
                assert(out@ =~= seq![1u8] + spec_be32(n as u32) + spec_triples_bytes(
                    d.take(i + 1),
                ));
            }
            i = i + 1;
        }
        proof {
            assert(self.diff@.take(n as int) =~= self.diff@);
        }
        out
    }

    /// Serialize this diff as a diff frame and compress the bytes.
    pub fn serialize_and_compress(&self) -> (out: Vec<u8>)
        requires
            self.diff@.len() < 0x1_0000_0000,
        ensures
            out@ == gzip_of(spec_diff_frame_bytes(self.diff@)),
            gunzip_of(out@) == Some(spec_diff_frame_bytes(self.diff@)),
    {
        let bytes = self.serialize();
        gzip_compress(&bytes)
    }
}

/// Spec-level parse of one serialized cell starting at byte `pos`.
pub open spec fn spec_parse_cell(b: Seq<u8>, pos: int) -> Option<(Cell, int)> {
    if pos < 0 || pos >= b.len() {
        None
    } else if b[pos] == 0 {
        Some((Cell::Background, pos + 1))
    } else if b[pos] == 1 {
        if pos + 10 > b.len() {
            None
        } else {
            let cu = b[pos + 1];
            let g0 = spec_be32_at(b, pos + 5);
            if cu > 1 || !spec_char_code_valid(g0) {
                None
            } else {
                let color = (b[pos + 2], b[pos + 3], b[pos + 4]);
                let flag = b[pos + 9];
                if flag == 0 {
                    Some(
                        (
                            Cell::Foreground {
                                custom_glyph: cu == 1,
                                glyph0: g0 as char,
                                glyph1: None,
                                color,
                            },
                            pos + 10,
                        ),
                    )
                } else if flag == 1 {
                    if pos + 14 > b.len() {
                        None
                    } else {
                        let g1 = spec_be32_at(b, pos + 10);
                        if !spec_char_code_valid(g1) {
                            None
                        } else {
                            Some(
                                (
                                    Cell::Foreground {
                                        custom_glyph: cu == 1,
                                        glyph0: g0 as char,
                                        glyph1: Some(g1 as char),
                                        color,
                                    },
                                    pos + 14,
                                ),
                            )
                        }
                    }
                } else {
                    None
                }
            }
        }
    } else {
        None
    }
}

/// Spec-level parse of `n` consecutive serialized cells starting at `pos`.
pub open spec fn spec_parse_cells(b: Seq<u8>, pos: int, n: int) -> Option<(Seq<Cell>, int)>
    decreases n,
{
    if n <= 0 {
        Some((Seq::empty(), pos))
    } else {
        match spec_parse_cell(b, pos) {
            None => None,
            Some((c, p2)) => match spec_parse_cells(b, p2, n - 1) {
                None => None,
                Some((cs, end)) => Some((seq![c] + cs, end)),
            },
        }
    }
}

/// Spec-level parse of one diff triple starting at `pos`.
pub open spec fn spec_parse_triple(b: Seq<u8>, pos: int) -> Option<((u8, u8, Cell), int)> {
    if pos < 0 || pos + 2 > b.len() {
        None
    } else {
        let x = b[pos];
        let y = b[pos + 1];
        if x >= 64 || y >= 64 {
            None
        } else {
            match spec_parse_cell(b, pos + 2) {
                None => None,
                Some((c, end)) => Some(((x, y, c), end)),
            }
        }
    }
}

/// Spec-level parse of `n` consecutive diff triples starting at `pos`.
pub open spec fn spec_parse_triples(b: Seq<u8>, pos: int, n: int) -> Option<
    (Seq<(u8, u8, Cell)>, int),
>
    decreases n,
{
    if n <= 0 {
        Some((Seq::empty(), pos))
    } else {
        match spec_parse_triple(b, pos) {
            None => None,
            Some((t, p2)) => match spec_parse_triples(b, p2, n - 1) {
                None => None,
                Some((d, end)) => Some((seq![t] + d, end)),
            },
        }
    }
}

/// Mathematical content of a decoded frame.
pub enum FrameModel {
    Full(Seq<Cell>),
    Delta(Seq<(u8, u8, Cell)>),
}

/// Spec-level parse of one whole (decompressed) frame.
pub open spec fn spec_parse_frame(b: Seq<u8>) -> Option<FrameModel> {
    if b.len() < 1 {
        None
    } else if b[0] == 0 {
        match spec_parse_cells(b, 1, GRID_CELLS as int) {
            None => None,
            Some((cs, end)) => if end == b.len() {
                Some(FrameModel::Full(cs))
            } else {
                None
            },
        }
    } else if b[0] == 1 {
        if b.len() < 5 {
            None
        } else {
            match spec_parse_triples(b, 5, spec_be32_at(b, 1) as int) {
                None => None,
                Some((d, end)) => if end == b.len() {
                    Some(FrameModel::Delta(d))
                } else {
                    None
                },
            }
        }
    } else {
        None
    }
}

/// The bytes that the stream compressor emits for `data`: fixed header plus a
/// deterministic deflate stream, a function of the input bytes alone.
pub uninterp spec fn gzip_of(data: Seq<u8>) -> Seq<u8>;

/// What the stream decompressor recovers from `data`: the inflated bytes, or
/// nothing when `data` is not a well-formed compressed stream.
pub uninterp spec fn gunzip_of(data: Seq<u8>) -> Option<Seq<u8>>;

/// Relies on flate2's write-side `GzEncoder` at the default level: it writes a
/// fixed gzip header (zero mtime, unknown-OS byte) and a deflate stream that
/// depends on the input bytes alone, so the output is a function of `data`;
/// and `GzDecoder` recovers from that output exactly the bytes that went in.
/// Writing into a `Vec` cannot fail.
#[verifier::external_body]
pub(crate) fn gzip_compress(data: &Vec<u8>) -> (r: Vec<u8>)
    ensures
        r@ == gzip_of(data@),
        gunzip_of(r@) == Some(data@),
{
    let mut out: Vec<u8> = Vec::new();
    {
        let mut enc = flate2::write::GzEncoder::new(&mut out, flate2::Compression::default());
        std::io::Write::write_all(&mut enc, data.as_slice()).expect("write to Vec cannot fail");
        enc.finish().expect("write to Vec cannot fail");
    }
    out
}

/// Relies on flate2's read-side `GzDecoder`: inflating is a function of the
/// input bytes alone, and `read_to_end` reports an error on a stream that no
/// encoder output, instead of returning bytes.
#[verifier::external_body]
pub(crate) fn gzip_decompress(data: &Vec<u8>) -> (r: Option<Vec<u8>>)
    ensures
        r is Some <==> gunzip_of(data@) is Some,
        (r matches Some(d) ==> gunzip_of(data@) == Some(d@)),
{
    let mut out: Vec<u8> = Vec::new();
    let mut dec = flate2::read::GzDecoder::new(data.as_slice());
    match std::io::Read::read_to_end(&mut dec, &mut out) {
        Ok(_) => Some(out),
        Err(_) => None,
    }
}

/// A decoded network frame, ready to apply to a receiver's mirror grid.
pub enum Frame {
    Full(Term),
    Delta(Diff),
}

impl View for Frame {
    type V = FrameModel;

    open spec fn view(&self) -> FrameModel {
        match self {
            Frame::Full(t) => FrameModel::Full(t@),
            Frame::Delta(d) => FrameModel::Delta(d.diff@),
        }
    }
}

/// The grid a receiver shows after applying frame `f` to mirror `g`:
/// replacement for a full frame, patching for a diff frame.
pub open spec fn spec_apply_frame(g: Seq<Cell>, f: FrameModel) -> Seq<Cell> {
    match f {
        FrameModel::Full(cs) => cs,
        FrameModel::Delta(d) => spec_apply_diff(g, d),
    }
}

impl Frame {
    /// A full frame covers the whole grid; a diff frame stays in bounds.
    pub open spec fn wf(&self) -> bool {
        match self {
            Frame::Full(t) => t.wf(),
            Frame::Delta(d) => diff_coords_ok(d.diff@),
        }
    }

    /// Apply this frame to a receiver's mirror grid.
    pub fn apply(&self, mirror: &mut Term)
        requires
            old(mirror).wf(),
            self.wf(),
        ensures
            final(mirror).wf(),
            final(mirror)@ == spec_apply_frame(old(mirror)@, self@),
    {
        match self {
            Frame::Full(t) => {
                mirror.copy_from(t);
            },
            Frame::Delta(d) => {
                d.apply(mirror);
            },
        }
    }
}

pub open spec fn opt_cell_view(r: Option<(Cell, usize)>) -> Option<(Cell, int)> {
    match r {
        None => None,
        Some((c, p)) => Some((c, p as int)),
    }
}

pub open spec fn opt_triple_view(r: Option<((u8, u8, Cell), usize)>) -> Option<
    ((u8, u8, Cell), int),
> {
    match r {
        None => None,
        Some((t, p)) => Some((t, p as int)),
    }
}

pub open spec fn opt_frame_view(r: Option<Frame>) -> Option<FrameModel> {
    match r {
        None => None,
        Some(f) => Some(f@),
    }
}

/// Parse one serialized cell of `b` starting at `pos`.
pub fn parse_cell(b: &Vec<u8>, pos: usize) -> (r: Option<(Cell, usize)>)
    ensures
        opt_cell_view(r) == spec_parse_cell(b@, pos as int),
{
    let n = b.len();
    if pos >= n {
        return None;
    }
    let tag = b[pos];
    if tag == 0 {
        return Some((Cell::Background, pos + 1));
    }
    if tag != 1 {
        return None;
    }
    if n - pos < 10 {
        return None;
    }
    let cu = b[pos + 1];
    if cu > 1 {
        return None;
    }
    let g0 = read_be32(b, pos + 5);
    let glyph0 = match char::from_u32(g0) {
        None => { return None; },
        Some(c) => c,
    };
    proof {
        vstd::utf8::char_u32_cast(glyph0, g0);
    }
    let color = (b[pos + 2], b[pos + 3], b[pos + 4]);
    let flag = b[pos + 9];
    if flag == 0 {
        Some((Cell::Foreground { custom_glyph: cu == 1, glyph0, glyph1: None, color }, pos + 10))
    } else if flag == 1 {
        if n - pos < 14 {
            return None;
        }
        let g1 = read_be32(b, pos + 10);
        let glyph1 = match char::from_u32(g1) {
            None => { return None; },
            Some(c) => c,
        };
        proof {
            vstd::utf8::char_u32_cast(glyph1, g1);
        }
        Some(
            (
                Cell::Foreground { custom_glyph: cu == 1, glyph0, glyph1: Some(glyph1), color },
                pos + 14,
            ),
        )
    } else {
        None
    }
}

/// Parse one diff triple of `b` starting at `pos`.
fn parse_triple(b: &Vec<u8>, pos: usize) -> (r: Option<((u8, u8, Cell), usize)>)
    ensures
        opt_triple_view(r) == spec_parse_triple(b@, pos as int),
{
    let n = b.len();
    if pos >= n || n - pos < 2 {
        return None;
    }
    let x = b[pos];
    let y = b[pos + 1];
    if x >= 64 || y >= 64 {
        return None;
    }
    match parse_cell(b, pos + 2) {
        None => None,
        Some((c, end)) => Some(((x, y, c), end)),
    }
}

/// Parse one whole decompressed frame: a full grid or a list of diff triples.
pub fn parse_frame(b: &Vec<u8>) -> (r: Option<Frame>)
    ensures
        opt_frame_view(r) == spec_parse_frame(b@),
        (r matches Some(f) ==> f.wf()),
{
    let n = b.len();
    if n < 1 {
        return None;
    }
    let tag = b[0];
    if tag == 0 {
        let mut cells: Vec<Cell> = Vec::new();
        let mut pos: usize = 1;
        let mut i: usize = 0;
        while i < GRID_CELLS
            invariant
                i <= GRID_CELLS,
                n == b@.len(),
                n >= 1,
                b@[0] == 0,
                cells@.len() == i,
                spec_parse_cells(b@, 1, GRID_CELLS as int) == (match spec_parse_cells(
                    b@,
                    pos as int,
                    GRID_CELLS - i,
                ) {
                    None => None::<(Seq<Cell>, int)>,
                    Some((cs, end)) => Some((cells@ + cs, end)),
                }),
            decreases GRID_CELLS - i,
        {
            match parse_cell(b, pos) {
                None => {
                    return None;
                },
                Some((c, p2)) => {
                    proof {
                        let rem = GRID_CELLS - i;
                        let s = spec_parse_cells(b@, p2 as int, rem - 1);
                        if s is Some {
                            let cs = (s->0).0;
                            assert(cells@ + (seq![c] + cs) =~= cells@.push(c) + cs);
                        }
                    }
                    cells.push(c);
                    pos = p2;
                    i = i + 1;
                },
            }
        }
        if pos == n {
            proof {
                assert(cells@ + Seq::<Cell>::empty() =~= cells@);
            }
            Some(Frame::Full(Term { count: 0, cells }))
        } else {
            None
        }
    } else if tag == 1 {
        if n < 5 {
            return None;
        }
        let count = read_be32(b, 1);
        let total = count as usize;
        let mut triples: Vec<(u8, u8, Cell)> = Vec::new();
        let mut pos: usize = 5;
        let mut i: usize = 0;
        while i < total
            invariant
                i <= total,
                n == b@.len(),
                n >= 5,
                b@[0] == 1,
                total == spec_be32_at(b@, 1),
                triples@.len() == i,
                diff_coords_ok(triples@),
                spec_parse_triples(b@, 5, total as int) == (match spec_parse_triples(
                    b@,
                    pos as int,
                    total - i,
                ) {
                    None => None::<(Seq<(u8, u8, Cell)>, int)>,
                    Some((d, end)) => Some((triples@ + d, end)),
                }),
            decreases total - i,
        {
            match parse_triple(b, pos) {
                None => {
                    return None;
                },
                Some((t, p2)) => {
                    proof {
                        let rem = total - i;
                        let s = spec_parse_triples(b@, p2 as int, rem - 1);
                        if s is Some {
                            let d = (s->0).0;
                            assert(triples@ + (seq![t] + d) =~= triples@.push(t) + d);
                        }
                    }
                    triples.push(t);
                    pos = p2;
                    i = i + 1;
                },
            }
        }
        if pos == n {
            proof {
                assert(triples@ + Seq::<(u8, u8, Cell)>::empty() =~= triples@);
            }
            Some(Frame::Delta(Diff { diff: triples }))
        } else {
            None
        }
    } else {
        None
    }
}

proof fn lemma_parse_cell_of_bytes(b: Seq<u8>, pos: int, c: Cell)
    requires
        0 <= pos,
        pos + spec_cell_bytes(c).len() <= b.len(),
        b.subrange(pos, pos + spec_cell_bytes(c).len()) == spec_cell_bytes(c),
    ensures
        spec_parse_cell(b, pos) == Some((c, pos + spec_cell_bytes(c).len())),
{
    let bytes = spec_cell_bytes(c);
    let l = bytes.len() as int;
    assert forall|k: int| 0 <= k < l implies b[pos + k] == bytes[k] by {
        assert(b.subrange(pos, pos + l)[k] == b[pos + k]);
    }
    match c {
        Cell::Background => {
            assert(bytes[0] == 0u8);
        },
        Cell::Foreground { custom_glyph, glyph0, glyph1, color } => {
            let h = seq![
                1u8,
                if custom_glyph {
                    1u8
                } else {
                    0u8
                },
                color.0,
                color.1,
                color.2,
            ];
            let m = spec_be32(glyph0 as u32);
            let tl = match glyph1 {
                None => seq![0u8],
                Some(g) => seq![1u8] + spec_be32(g as u32),
            };
            assert(bytes == h + m + tl);
            assert(bytes[0] == 1u8);
            assert(bytes[1] == h[1]);
            assert(bytes[2] == color.0 && bytes[3] == color.1 && bytes[4] == color.2);
            assert(b[pos + 5] == bytes[5] && b[pos + 6] == bytes[6] && b[pos + 7] == bytes[7]
                && b[pos + 8] == bytes[8]);
            assert(bytes[5] == m[0] && bytes[6] == m[1] && bytes[7] == m[2] && bytes[8] == m[3]);
            vstd::utf8::char_is_scalar(glyph0);
            lemma_be32_recombine(glyph0 as u32);
            assert(spec_be32_at(b, pos + 5) == glyph0 as u32);
            vstd::utf8::char_u32_cast(glyph0, glyph0 as u32);
            assert(b[pos + 9] == bytes[9]);
            match glyph1 {
                None => {
                    assert(bytes[9] == tl[0]);
                    assert(l == 10);
                },
                Some(g) => {
                    assert(bytes[9] == tl[0]);
                    assert(tl[0] == 1u8);
                    assert(b[pos + 10] == bytes[10] && b[pos + 11] == bytes[11] && b[pos + 12]
                        == bytes[12] && b[pos + 13] == bytes[13]);
                    assert(bytes[10] == tl[1] && bytes[11] == tl[2] && bytes[12] == tl[3]
                        && bytes[13] == tl[4]);
                    assert(tl[1] == spec_be32(g as u32)[0] && tl[2] == spec_be32(g as u32)[1]
                        && tl[3] == spec_be32(g as u32)[2] && tl[4] == spec_be32(g as u32)[3]);
                    vstd::utf8::char_is_scalar(g);
                    lemma_be32_recombine(g as u32);
                    assert(spec_be32_at(b, pos + 10) == g as u32);
                    vstd::utf8::char_u32_cast(g, g as u32);
                    assert(l == 14);
                },
            }
        },
    }
}

proof fn lemma_parse_cells_of_bytes(b: Seq<u8>, pos: int, cs: Seq<Cell>)
    requires
        0 <= pos,
        pos + spec_cells_bytes(cs).len() <= b.len(),
        b.subrange(pos, pos + spec_cells_bytes(cs).len()) == spec_cells_bytes(cs),
    ensures
        spec_parse_cells(b, pos, cs.len() as int) == Some(
            (cs, pos + spec_cells_bytes(cs).len()),
        ),
    decreases cs.len(),
{
    let bytes = spec_cells_bytes(cs);
    let l = bytes.len() as int;
    assert forall|k: int| 0 <= k < l implies b[pos + k] == bytes[k] by {
        assert(b.subrange(pos, pos + l)[k] == b[pos + k]);
    }
    if cs.len() == 0 {
        assert(cs =~= Seq::<Cell>::empty());
    } else {
        let head = spec_cell_bytes(cs[0]);
        let rest = spec_cells_bytes(cs.drop_first());
        let l0 = head.len() as int;
        assert(bytes == head + rest);
        assert forall|k: int| 0 <= k < l0 implies b.subrange(pos, pos + l0)[k] == head[k] by {
            assert(b[pos + k] == bytes[k]);
        }
        assert(b.subrange(pos, pos + l0) =~= head);
        lemma_parse_cell_of_bytes(b, pos, cs[0]);
        assert forall|k: int| 0 <= k < l - l0 implies b.subrange(pos + l0, pos + l)[k] == rest[k]
            by {
            assert(b[pos + (l0 + k)] == bytes[l0 + k]);
        }
        assert(b.subrange(pos + l0, pos + l) =~= rest);
        lemma_parse_cells_of_bytes(b, pos + l0, cs.drop_first());
        assert(seq![cs[0]] + cs.drop_first() =~= cs);
    }
}

/// Parsing the serialized bytes of a full grid yields that grid back: the
/// full-frame round-trip law at the byte level.
pub proof fn lemma_full_frame_roundtrip(cs: Seq<Cell>)
    requires
        cs.len() == GRID_CELLS,
    ensures
        spec_parse_frame(spec_full_frame_bytes(cs)) == Some(FrameModel::Full(cs)),
{
    let b = spec_full_frame_bytes(cs);
    let inner = spec_cells_bytes(cs);
    assert(b == seq![0u8] + inner);
    assert(b[0] == 0u8);
    assert(b.subrange(1, 1 + inner.len() as int) =~= inner);
    lemma_parse_cells_of_bytes(b, 1, cs);
}

proof fn lemma_parse_triple_of_bytes(b: Seq<u8>, pos: int, t: (u8, u8, Cell))
    requires
        0 <= pos,
        t.0 < 64,
        t.1 < 64,
        pos + spec_triple_bytes(t).len() <= b.len(),
        b.subrange(pos, pos + spec_triple_bytes(t).len()) == spec_triple_bytes(t),
    ensures
        spec_parse_triple(b, pos) == Some((t, pos + spec_triple_bytes(t).len())),
{
    let bytes = spec_triple_bytes(t);
    let l = bytes.len() as int;
    assert forall|k: int| 0 <= k < l implies b[pos + k] == bytes[k] by {
        assert(b.subrange(pos, pos + l)[k] == b[pos + k]);
    }
    let cb = spec_cell_bytes(t.2);
    assert(bytes == seq![t.0, t.1] + cb);
    assert(bytes[0] == t.0 && bytes[1] == t.1);
    assert forall|k: int| 0 <= k < l - 2 implies b.subrange(pos + 2, pos + l)[k] == cb[k] by {
        assert(b[pos + (2 + k)] == bytes[2 + k]);
    }
    assert(b.subrange(pos + 2, pos + l) =~= cb);
    lemma_parse_cell_of_bytes(b, pos + 2, t.2);
}

proof fn lemma_parse_triples_of_bytes(b: Seq<u8>, pos: int, d: Seq<(u8, u8, Cell)>)
    requires
        0 <= pos,
        diff_coords_ok(d),
        pos + spec_triples_bytes(d).len() <= b.len(),
        b.subrange(pos, pos + spec_triples_bytes(d).len()) == spec_triples_bytes(d),
    ensures
        spec_parse_triples(b, pos, d.len() as int) == Some(
            (d, pos + spec_triples_bytes(d).len()),
        ),
    decreases d.len(),
{
    let bytes = spec_triples_bytes(d);
    let l = bytes.len() as int;
    assert forall|k: int| 0 <= k < l implies b[pos + k] == bytes[k] by {
        assert(b.subrange(pos, pos + l)[k] == b[pos + k]);
    }
    if d.len() == 0 {
        assert(d =~= Seq::<(u8, u8, Cell)>::empty());
    } else {
        let head = spec_triple_bytes(d[0]);
        let rest = spec_triples_bytes(d.drop_first());
        let l0 = head.len() as int;
        assert(bytes == head + rest);
        assert forall|k: int| 0 <= k < l0 implies b.subrange(pos, pos + l0)[k] == head[k] by {
            assert(b[pos + k] == bytes[k]);
        }
        assert(b.subrange(pos, pos + l0) =~= head);
        lemma_parse_triple_of_bytes(b, pos, d[0]);
        assert forall|k: int| 0 <= k < l - l0 implies b.subrange(pos + l0, pos + l)[k] == rest[k]
            by {
            assert(b[pos + (l0 + k)] == bytes[l0 + k]);
        }
        assert(b.subrange(pos + l0, pos + l) =~= rest);
        assert(diff_coords_ok(d.drop_first()));
        lemma_parse_triples_of_bytes(b, pos + l0, d.drop_first());
        assert(seq![d[0]] + d.drop_first() =~= d);
    }
}

/// Parsing the serialized bytes of a diff yields that diff's triples back:
/// the diff-frame round-trip law at the byte level.
pub proof fn lemma_diff_frame_roundtrip(d: Seq<(u8, u8, Cell)>)
    requires
        diff_coords_ok(d),
        d.len() < 0x1_0000_0000,
    ensures
        spec_parse_frame(spec_diff_frame_bytes(d)) == Some(FrameModel::Delta(d)),
{
    let b = spec_diff_frame_bytes(d);
    let cnt = spec_be32(d.len() as u32);
    let inner = spec_triples_bytes(d);
    assert(b == seq![1u8] + cnt + inner);
    assert(b[0] == 1u8);
    assert forall|j: int| 0 <= j < 4 implies b[1 + j] == cnt[j] by {
        assert(b[1 + j] == (seq![1u8] + cnt)[1 + j]);
    }
    lemma_be32_recombine(d.len() as u32);
    assert(spec_be32_at(b, 1) == d.len() as u32);
    assert(b.subrange(5, 5 + inner.len() as int) =~= inner);
    lemma_parse_triples_of_bytes(b, 5, d);
}

/// A grid of nothing but background serializes to the full-frame tag byte
/// followed by exactly one zero byte per cell.
pub proof fn lemma_background_frame_bytes(cs: Seq<Cell>)
    requires
        cs.len() == GRID_CELLS,
        forall|i: int| 0 <= i < cs.len() ==> cs[i] == Cell::Background,
    ensures
        spec_full_frame_bytes(cs).len() == GRID_CELLS + 1,
        forall|k: int| 0 <= k < GRID_CELLS + 1 ==> spec_full_frame_bytes(cs)[k] == 0u8,
{
    lemma_background_cells_bytes(cs);
}

proof fn lemma_background_cells_bytes(cs: Seq<Cell>)
    requires
        forall|i: int| 0 <= i < cs.len() ==> cs[i] == Cell::Background,
    ensures
        spec_cells_bytes(cs).len() == cs.len(),
        forall|k: int| 0 <= k < cs.len() ==> spec_cells_bytes(cs)[k] == 0u8,
    decreases cs.len(),
{
    if cs.len() > 0 {
        assert(spec_cell_bytes(cs[0]) == seq![0u8]);
        assert(forall|i: int|
            0 <= i < cs.drop_first().len() ==> cs.drop_first()[i] == Cell::Background);
        lemma_background_cells_bytes(cs.drop_first());
    }
}

/// Decompress a received network frame and parse what it holds.
pub fn decode_frame(data: &Vec<u8>) -> (r: Option<Frame>)
    ensures
        (r matches Some(f) ==> f.wf()),
        match gunzip_of(data@) {
            Some(bytes) => opt_frame_view(r) == spec_parse_frame(bytes),
            None => r is None,
        },
{
    match gzip_decompress(data) {
        None => None,
        Some(bytes) => parse_frame(&bytes),
    }
}

} // verus!
