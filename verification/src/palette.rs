//! Classification of sampled colors into semantic categories, and the
//! palette that maps each category to a display word and a visual source.
use vstd::prelude::*;

use crate::text::str_eq;

verus! {

/// Number of semantic color categories.
pub const CATEGORY_COUNT: usize = 6;

/// A semantic region recognized in the rendered output.
#[derive(Debug, PartialEq, Eq, Hash, Clone, Copy, Structural)]
pub enum PaletteType {
    Hair,
    Eyes,
    Skin,
    Highlight,
    Eyebags,
    PartyHat,
}

/// Stable index of a category, used to key per-category override tables.
pub open spec fn spec_category_index(t: PaletteType) -> int {
    match t {
        PaletteType::Hair => 0,
        PaletteType::Eyes => 1,
        PaletteType::Skin => 2,
        PaletteType::Highlight => 3,
        PaletteType::Eyebags => 4,
        PaletteType::PartyHat => 5,
    }
}

/// The category a color falls in, by the fixed per-channel tolerance table:
/// inclusive channel ranges for hair, highlight and skin, a strictly dominant
/// green channel for eyes, and exact matches for under-eye and accessory.
pub open spec fn spec_classify(c: (u8, u8, u8)) -> Option<PaletteType> {
    let (r, g, b) = c;
    if 186 <= r <= 188 && 176 <= g <= 178 && 189 <= b <= 191 {
        Some(PaletteType::Hair)
    } else if 158 <= r <= 162 && 148 <= g <= 152 && 159 <= b <= 162 {
        Some(PaletteType::Highlight)
    } else if g > r && g > b {
        Some(PaletteType::Eyes)
    } else if 242 <= r <= 246 && 238 <= g <= 242 && 234 <= b <= 238 {
        Some(PaletteType::Skin)
    } else if r == 182 && g == 142 && b == 139 {
        Some(PaletteType::Eyebags)
    } else if r == 255 && g == 0 && b == 0 {
        Some(PaletteType::PartyHat)
    } else {
        None
    }
}

/// The category named by a configuration string, if any.
pub open spec fn spec_category_of_name(s: Seq<char>) -> Option<PaletteType> {
    if s == "hair"@ {
        Some(PaletteType::Hair)
    } else if s == "eyes"@ {
        Some(PaletteType::Eyes)
    } else if s == "skin"@ {
        Some(PaletteType::Skin)
    } else if s == "highlight"@ {
        Some(PaletteType::Highlight)
    } else if s == "eyebags"@ {
        Some(PaletteType::Eyebags)
    } else if s == "hat"@ {
        Some(PaletteType::PartyHat)
    } else {
        None
    }
}

impl PaletteType {
    /// Parse a category name from the control configuration.
    pub fn from_string(nm: &str) -> (r: Option<PaletteType>)
        ensures
            r == spec_category_of_name(nm@),
    {
        if str_eq(nm, "hair") {
            Some(PaletteType::Hair)
        } else if str_eq(nm, "eyes") {
            Some(PaletteType::Eyes)
        } else if str_eq(nm, "skin") {
            Some(PaletteType::Skin)
        } else if str_eq(nm, "highlight") {
            Some(PaletteType::Highlight)
        } else if str_eq(nm, "eyebags") {
            Some(PaletteType::Eyebags)
        } else if str_eq(nm, "hat") {
            Some(PaletteType::PartyHat)
        } else {
            None
        }
    }

    /// Classify a sampled color by the fixed tolerance table.
    pub fn from_color(c: (u8, u8, u8)) -> (r: Option<PaletteType>)
        ensures
            r == spec_classify(c),
    {
        let (r, g, b) = c;
        if r >= 186 && r <= 188 && g >= 176 && g <= 178 && b >= 189 && b <= 191 {
            Some(PaletteType::Hair)
        } else if r >= 158 && r <= 162 && g >= 148 && g <= 152 && b >= 159 && b <= 162 {
            Some(PaletteType::Highlight)
        } else if g > r && g > b {
            Some(PaletteType::Eyes)
        } else if r >= 242 && r <= 246 && g >= 238 && g <= 242 && b >= 234 && b <= 238 {
            Some(PaletteType::Skin)
        } else if r == 182 && g == 142 && b == 139 {
            Some(PaletteType::Eyebags)
        } else if r == 255 && g == 0 && b == 0 {
            Some(PaletteType::PartyHat)
        } else {
            None
        }
    }

    /// Stable index of this category (see [`spec_category_index`]).
    pub fn index(&self) -> (i: usize)
        ensures
            i == spec_category_index(*self),
            i < CATEGORY_COUNT,
    {
        match self {
            PaletteType::Hair => 0,
            PaletteType::Eyes => 1,
            PaletteType::Skin => 2,
            PaletteType::Highlight => 3,
            PaletteType::Eyebags => 4,
            PaletteType::PartyHat => 5,
        }
    }
}

/// The visual source a category resolves to.
pub enum PaletteEntry {
    /// A single solid color.
    Color((u8, u8, u8)),
    /// A static image tiled by `(x mod height, y mod width)`.
    Pattern { width: i32, height: i32, pixels: Vec<(u8, u8, u8)> },
    /// A looping animation of tiled images, advanced by the tick counter.
    Animation { delay: i32, width: i32, height: i32, frames: Vec<Vec<(u8, u8, u8)>> },
    /// Sample a live external video source at the same coordinate.
    Video,
}

/// Mathematical content of a [`PaletteEntry`].
pub enum EntryModel {
    Color((u8, u8, u8)),
    Pattern { width: int, height: int, pixels: Seq<(u8, u8, u8)> },
    Animation { delay: int, width: int, height: int, frames: Seq<Seq<(u8, u8, u8)>> },
    Video,
}

/// The element views of a sequence of pixel buffers.
pub open spec fn frames_views(v: Seq<Vec<(u8, u8, u8)>>) -> Seq<Seq<(u8, u8, u8)>> {
    Seq::new(v.len(), |i: int| v[i]@)
}

impl View for PaletteEntry {
    type V = EntryModel;

    open spec fn view(&self) -> EntryModel {
        match self {
            PaletteEntry::Color(c) => EntryModel::Color(*c),
            PaletteEntry::Pattern { width, height, pixels } => EntryModel::Pattern {
                width: *width as int,
                height: *height as int,
                pixels: pixels@,
            },
            PaletteEntry::Animation { delay, width, height, frames } => EntryModel::Animation {
                delay: *delay as int,
                width: *width as int,
                height: *height as int,
                frames: frames_views(frames@),
            },
            PaletteEntry::Video => EntryModel::Video,
        }
    }
}

impl EntryModel {
    /// Dimensions are positive and small enough that tile indexing cannot
    /// overflow, and an animation has at least one frame.
    pub open spec fn wf(&self) -> bool {
        match self {
            EntryModel::Color(_) => true,
            EntryModel::Pattern { width, height, pixels } => 0 < *width <= 0xB504 && 0 < *height
                <= 0xB504,
            EntryModel::Animation { delay, width, height, frames } => 0 < *width <= 0xB504 && 0
                < *height <= 0xB504 && 0 < frames.len() < 0x7FFF_FFFF,
            EntryModel::Video => true,
        }
    }
}

impl PaletteEntry {
    /// Dimensions and frame counts are in range (see [`EntryModel::wf`]).
    pub open spec fn wf(&self) -> bool {
        self@.wf()
    }

    /// A copy of this entry with the same mathematical content.
    pub fn duplicate(&self) -> (r: PaletteEntry)
        ensures
            r@ == self@,
    {
        match self {
            PaletteEntry::Color(c) => PaletteEntry::Color(*c),
            PaletteEntry::Pattern { width, height, pixels } => PaletteEntry::Pattern {
                width: *width,
                height: *height,
                pixels: copy_colors(pixels),
            },
            PaletteEntry::Animation { delay, width, height, frames } => {
                let r = PaletteEntry::Animation {
                    delay: *delay,
                    width: *width,
                    height: *height,
                    frames: copy_frames(frames),
                };
                proof {
                    assert(r@ =~~= self@);
                }
                r
            },
            PaletteEntry::Video => PaletteEntry::Video,
        }
    }

    /// Build a tiled pattern entry from a decoded RGBA byte buffer, mapping
    /// each four-byte pixel to its color and fully transparent pixels to
    /// black.
    pub fn pattern_from_rgba(width: i32, height: i32, rgba: &Vec<u8>) -> (r: PaletteEntry)
        requires
            0 < width <= 0xB504,
            0 < height <= 0xB504,
        ensures
            r@ matches EntryModel::Pattern { width: w, height: h, pixels } && w == width && h
                == height && pixels == spec_colors_of_rgba(rgba@),
            r.wf(),
    {
        PaletteEntry::Pattern { width, height, pixels: colors_of_rgba(rgba) }
    }

    /// Build an animation entry from decoded RGBA frames, with the same
    /// per-pixel mapping as [`PaletteEntry::pattern_from_rgba`].
    pub fn animation_from_rgba_frames(
        delay: i32,
        width: i32,
        height: i32,
        rgba_frames: &Vec<Vec<u8>>,
    ) -> (r: PaletteEntry)
        requires
            0 < width <= 0xB504,
            0 < height <= 0xB504,
            0 < rgba_frames@.len() < 0x7FFF_FFFF,
        ensures
            r@ matches EntryModel::Animation { delay: d, width: w, height: h, frames } && d
                == delay && w == width && h == height && frames.len() == rgba_frames@.len() && (
            forall|i: int|
                0 <= i < frames.len() ==> #[trigger] frames[i] == spec_colors_of_rgba(
                    rgba_frames@[i]@,
                )),
            r.wf(),
    {
        let mut frames: Vec<Vec<(u8, u8, u8)>> = Vec::new();
        let n = rgba_frames.len();
        let mut i: usize = 0;
        while i < n
            invariant
                i <= n,
                n == rgba_frames@.len(),
                frames@.len() == i,
                forall|j: int|
                    0 <= j < i ==> (#[trigger] frames@[j])@ == spec_colors_of_rgba(
                        rgba_frames@[j]@,
                    ),
            decreases n - i,
        {
            frames.push(colors_of_rgba(&rgba_frames[i]));
            i = i + 1;
        }
        PaletteEntry::Animation { delay, width, height, frames }
    }
}

/// The tick delay of one animation frame, from the decoder's frame delay
/// numerator and denominator in milliseconds, at about 60 ticks a second.
pub fn frame_delay_ticks(numer: u32, denom: u32) -> (r: u32)
    requires
        denom > 0,
        denom * 17 <= u32::MAX,
    ensures
        r == numer as int / (denom * 17) as int,
{
    numer / (denom * 17)
}

/// The color sequence a decoded RGBA byte buffer stands for: one color per
/// four-byte group, with fully transparent pixels mapped to black.
pub open spec fn spec_colors_of_rgba(bytes: Seq<u8>) -> Seq<(u8, u8, u8)> {
    Seq::new(
        bytes.len() / 4,
        |i: int|
            if bytes[4 * i + 3] == 0 {
                (0u8, 0u8, 0u8)
            } else {
                (bytes[4 * i], bytes[4 * i + 1], bytes[4 * i + 2])
            },
    )
}

fn colors_of_rgba(bytes: &Vec<u8>) -> (r: Vec<(u8, u8, u8)>)
    ensures
        r@ == spec_colors_of_rgba(bytes@),
{
    let mut out: Vec<(u8, u8, u8)> = Vec::new();
    let n = bytes.len();
    let total = n / 4;
    let mut i: usize = 0;
    let mut pos: usize = 0;
    while i < total
        invariant
            i <= total,
            n == bytes@.len(),
            total == bytes@.len() / 4,
            pos == 4 * i,
            out@.len() == i,
            forall|j: int| 0 <= j < i ==> out@[j] == spec_colors_of_rgba(bytes@)[j],
        decreases total - i,
    {
        proof {
            assert(4 * (total as int) <= n) by (nonlinear_arith)
                requires
                    total == n as int / 4,
                    n >= 0,
            ;
        }
        let a = bytes[pos + 3];
        let c = if a == 0 {
            (0u8, 0u8, 0u8)
        } else {
            (bytes[pos], bytes[pos + 1], bytes[pos + 2])
        };
        out.push(c);
        i = i + 1;
        pos = pos + 4;
    }
    proof {
        assert(out@ =~= spec_colors_of_rgba(bytes@));
    }
    out
}

/// The element views of a sequence of optional words.
pub open spec fn word_views(v: Seq<Option<String>>) -> Seq<Option<Seq<char>>> {
    Seq::new(
        v.len(),
        |i: int|
            match v[i] {
                None => None,
                Some(w) => Some(w@),
            },
    )
}

/// The element views of a sequence of optional entries.
pub open spec fn entry_views(v: Seq<Option<PaletteEntry>>) -> Seq<Option<EntryModel>> {
    Seq::new(
        v.len(),
        |i: int|
            match v[i] {
                None => None,
                Some(e) => Some(e@),
            },
    )
}

/// Per-category display words and visual sources, with a process-wide
/// default word; absent overrides fall back to the sampled color and the
/// default word.
pub struct Palette {
    pub default_word: String,
    pub word_overrides: Vec<Option<String>>,
    pub entry_overrides: Vec<Option<PaletteEntry>>,
}

impl Palette {
    /// One override slot per category; every word has at least one
    /// character (the glyph compositor cycles through it), and every entry
    /// is well-formed.
    pub open spec fn wf(&self) -> bool {
        &&& self.word_overrides@.len() == CATEGORY_COUNT
        &&& self.entry_overrides@.len() == CATEGORY_COUNT
        &&& self.default_word@.len() > 0
        &&& forall|i: int|
            0 <= i < CATEGORY_COUNT ==> match #[trigger] word_views(self.word_overrides@)[i] {
                None => true,
                Some(w) => w.len() > 0,
            }
        &&& forall|i: int|
            0 <= i < CATEGORY_COUNT ==> match #[trigger] entry_views(self.entry_overrides@)[i] {
                None => true,
                Some(e) => e.wf(),
            }
    }

    /// The word override set for category `t`, if any.
    pub open spec fn spec_word_override(&self, t: PaletteType) -> Option<Seq<char>> {
        word_views(self.word_overrides@)[spec_category_index(t)]
    }

    /// The entry override set for category `t`, if any.
    pub open spec fn spec_entry_override(&self, t: PaletteType) -> Option<EntryModel> {
        entry_views(self.entry_overrides@)[spec_category_index(t)]
    }

    /// Whether looking up `col` uses a word override.
    pub open spec fn spec_lookup_custom(&self, col: (u8, u8, u8)) -> bool {
        match spec_classify(col) {
            None => false,
            Some(t) => self.spec_word_override(t) is Some,
        }
    }

    /// The display word that looking up `col` resolves to.
    pub open spec fn spec_lookup_word(&self, col: (u8, u8, u8)) -> Seq<char> {
        match spec_classify(col) {
            None => self.default_word@,
            Some(t) => match self.spec_word_override(t) {
                None => self.default_word@,
                Some(w) => w,
            },
        }
    }

    /// The visual source that looking up `col` resolves to.
    pub open spec fn spec_lookup_entry(&self, col: (u8, u8, u8)) -> EntryModel {
        match spec_classify(col) {
            None => EntryModel::Color(col),
            Some(t) => match self.spec_entry_override(t) {
                None => EntryModel::Color(col),
                Some(e) => e,
            },
        }
    }

    /// A palette with no overrides and the process-wide default word.
    pub fn new() -> (r: Palette)
        ensures
            r.wf(),
            r.default_word@ == "lcolonq"@,
            forall|i: int| 0 <= i < CATEGORY_COUNT ==> word_views(r.word_overrides@)[i] is None,
            forall|i: int| 0 <= i < CATEGORY_COUNT ==> entry_views(r.entry_overrides@)[i] is None,
    {
        proof {
            reveal_strlit("lcolonq");
        }
        let mut word_overrides: Vec<Option<String>> = Vec::new();
        let mut entry_overrides: Vec<Option<PaletteEntry>> = Vec::new();
        let mut i: usize = 0;
        while i < CATEGORY_COUNT
            invariant
                i <= CATEGORY_COUNT,
                word_overrides@.len() == i,
                entry_overrides@.len() == i,
                forall|j: int| 0 <= j < i ==> word_overrides@[j] is None,
                forall|j: int| 0 <= j < i ==> entry_overrides@[j] is None,
            decreases CATEGORY_COUNT - i,
        {
            word_overrides.push(None);
            entry_overrides.push(None);
            i = i + 1;
        }
        Palette { default_word: "lcolonq".to_owned(), word_overrides, entry_overrides }
    }

    /// Install a word override for category `t`.
    pub fn set_word(&mut self, t: PaletteType, w: String)
        requires
            old(self).wf(),
            w@.len() > 0,
        ensures
            final(self).wf(),
            word_views(final(self).word_overrides@) == word_views(
                old(self).word_overrides@,
            ).update(spec_category_index(t), Some(w@)),
            final(self).entry_overrides == old(self).entry_overrides,
            final(self).default_word == old(self).default_word,
    {
        let i = t.index();
        self.word_overrides.set(i, Some(w));
        proof {
            assert(word_views(self.word_overrides@) =~= word_views(
                old(self).word_overrides@,
            ).update(spec_category_index(t), Some(w@)));
        }
    }

    /// Install an entry override for category `t`.
    pub fn set_entry(&mut self, t: PaletteType, e: PaletteEntry)
        requires
            old(self).wf(),
            e.wf(),
        ensures
            final(self).wf(),
            entry_views(final(self).entry_overrides@) == entry_views(
                old(self).entry_overrides@,
            ).update(spec_category_index(t), Some(e@)),
            final(self).word_overrides == old(self).word_overrides,
            final(self).default_word == old(self).default_word,
    {
        let i = t.index();
        self.entry_overrides.set(i, Some(e));
        proof {
            assert(entry_views(self.entry_overrides@) =~= entry_views(
                old(self).entry_overrides@,
            ).update(spec_category_index(t), Some(e@)));
        }
    }

    /// Resolve a sampled color: whether a word override applies, the display
    /// word, and the visual source. Absence of configuration always degrades
    /// to the default word and the raw sampled color; this never fails.
    pub fn lookup(&self, col: (u8, u8, u8)) -> (r: (bool, String, PaletteEntry))
        requires
            self.wf(),
        ensures
            r.0 == self.spec_lookup_custom(col),
            r.1@ == self.spec_lookup_word(col),
            r.2@ == self.spec_lookup_entry(col),
            r.1@.len() > 0,
            r.2.wf(),
    {
        match PaletteType::from_color(col) {
            Some(ty) => {
                let i = ty.index();
                let (custom, word) = match &self.word_overrides[i] {
                    Some(w) => (true, w.clone()),
                    None => (false, self.default_word.clone()),
                };
                let entry = match &self.entry_overrides[i] {
                    Some(e) => e.duplicate(),
                    None => PaletteEntry::Color(col),
                };
                (custom, word, entry)
            },
            None => (false, self.default_word.clone(), PaletteEntry::Color(col)),
        }
    }
}

fn copy_colors(v: &Vec<(u8, u8, u8)>) -> (r: Vec<(u8, u8, u8)>)
    ensures
        r@ == v@,
{
    let mut out: Vec<(u8, u8, u8)> = Vec::new();
    let n = v.len();
    let mut i: usize = 0;
    while i < n
        invariant
            i <= n,
            n == v@.len(),
            out@.len() == i,
            forall|j: int| 0 <= j < i ==> out@[j] == v@[j],
        decreases n - i,
    {
        out.push(v[i]);
        i = i + 1;
    }
    proof {
        assert(out@ =~= v@);
    }
    out
}

fn copy_frames(v: &Vec<Vec<(u8, u8, u8)>>) -> (r: Vec<Vec<(u8, u8, u8)>>)
    ensures
        frames_views(r@) == frames_views(v@),
{
    let mut out: Vec<Vec<(u8, u8, u8)>> = Vec::new();
    let n = v.len();
    let mut i: usize = 0;
    while i < n
        invariant
            i <= n,
            n == v@.len(),
            out@.len() == i,
            forall|j: int| 0 <= j < i ==> (#[trigger] out@[j])@ == v@[j]@,
        decreases n - i,
    {
        out.push(copy_colors(&v[i]));
        i = i + 1;
    }
    proof {
        assert(frames_views(out@) =~= frames_views(v@));
    }
    out
}

} // verus!
