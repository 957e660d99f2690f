//! Palette classification, glyph composition, sampling and the control
//! state on concrete values.
use glyphcast::control::ControlState;
use glyphcast::display::{classic_word, shadow_word_color};
use glyphcast::glyph::{cell_luminance, choose_glyph, compose_cell};
use glyphcast::grid::Cell;
use glyphcast::palette::{
    frame_delay_ticks, Palette, PaletteEntry, PaletteType,
};
use glyphcast::render::{resolve_entry_color, Framebuffer, VideoFrame, VideoFrames};
use glyphcast::stream::Streamer;

#[test]
fn hair_color_uses_default_word_and_static_color() {
    let p = Palette::new();
    let (custom, word, entry) = p.lookup((187, 177, 190));
    assert!(!custom);
    assert_eq!(word, "lcolonq");
    assert!(matches!(entry, PaletteEntry::Color((187, 177, 190))));
}

#[test]
fn pure_red_classifies_as_accessory() {
    assert_eq!(PaletteType::from_color((255, 0, 0)), Some(PaletteType::PartyHat));
}

#[test]
fn classification_follows_the_tolerance_table() {
    assert_eq!(PaletteType::from_color((186, 176, 189)), Some(PaletteType::Hair));
    assert_eq!(PaletteType::from_color((188, 178, 191)), Some(PaletteType::Hair));
    assert_eq!(PaletteType::from_color((160, 150, 160)), Some(PaletteType::Highlight));
    assert_eq!(PaletteType::from_color((10, 20, 10)), Some(PaletteType::Eyes));
    assert_eq!(PaletteType::from_color((244, 240, 236)), Some(PaletteType::Skin));
    assert_eq!(PaletteType::from_color((182, 142, 139)), Some(PaletteType::Eyebags));
    assert_eq!(PaletteType::from_color((50, 40, 60)), None);
    // One step outside the hair range, with green not dominant: uncategorized.
    assert_eq!(PaletteType::from_color((189, 177, 190)), None);
}

#[test]
fn category_names_parse_and_unknown_names_do_not() {
    assert_eq!(PaletteType::from_string("hair"), Some(PaletteType::Hair));
    assert_eq!(PaletteType::from_string("hat"), Some(PaletteType::PartyHat));
    assert_eq!(PaletteType::from_string("eyebags"), Some(PaletteType::Eyebags));
    assert_eq!(PaletteType::from_string("mouth"), None);
}

#[test]
fn word_override_marks_lookup_custom() {
    let mut p = Palette::new();
    p.set_word(PaletteType::Hair, String::from("ab"));
    let (custom, word, _) = p.lookup((187, 177, 190));
    assert!(custom);
    assert_eq!(word, "ab");
    // Other categories keep the default.
    let (custom2, word2, _) = p.lookup((255, 0, 0));
    assert!(!custom2);
    assert_eq!(word2, "lcolonq");
}

#[test]
fn entry_override_replaces_static_color() {
    let mut p = Palette::new();
    p.set_entry(PaletteType::PartyHat, PaletteEntry::Video);
    let (_, _, entry) = p.lookup((255, 0, 0));
    assert!(matches!(entry, PaletteEntry::Video));
}

#[test]
fn southern_edge_mask_forces_underscore_pair() {
    let cell = compose_cell("lcolonq", true, 10, 0b0000_0111, (9, 9, 9));
    assert_eq!(
        cell,
        Cell::Foreground {
            custom_glyph: false,
            glyph0: '_',
            glyph1: Some('_'),
            color: (9, 9, 9)
        }
    );
}

#[test]
fn pictographic_first_glyph_suppresses_second() {
    let cell = compose_cell("😀x", false, 0, 0, (1, 2, 3));
    assert_eq!(
        cell,
        Cell::Foreground { custom_glyph: true, glyph0: '😀', glyph1: None, color: (1, 2, 3) }
    );
}

#[test]
fn pictographic_second_glyph_becomes_dot() {
    let cell = compose_cell("x😀", false, 0, 0, (1, 2, 3));
    assert_eq!(
        cell,
        Cell::Foreground { custom_glyph: false, glyph0: 'x', glyph1: Some('.'), color: (1, 2, 3) }
    );
}

#[test]
fn plain_word_glyphs_cycle_from_the_base_index() {
    let cell = compose_cell("lcolonq", false, 6, 0, (0, 0, 0));
    // Index 6 wraps: 'q' then 'l'.
    assert_eq!(
        cell,
        Cell::Foreground { custom_glyph: false, glyph0: 'q', glyph1: Some('l'), color: (0, 0, 0) }
    );
}

#[test]
fn luminance_bands_select_density_glyphs() {
    assert_eq!(cell_luminance((255, 255, 255)), 2_550_000);
    assert_eq!(cell_luminance((0, 0, 0)), 0);
    assert_eq!(choose_glyph(false, 'z', 0), '.');
    assert_eq!(choose_glyph(false, 'z', 509_999), '.');
    assert_eq!(choose_glyph(false, 'z', 510_000), ',');
    assert_eq!(choose_glyph(false, 'z', 1_020_000), '`');
    assert_eq!(choose_glyph(false, 'z', 1_530_000), '*');
    assert_eq!(choose_glyph(false, 'z', 2_040_000), '#');
    // Explicit and line-drawing glyphs pass through unchanged.
    assert_eq!(choose_glyph(true, 'Q', 0), 'Q');
    assert_eq!(choose_glyph(false, '/', 0), '/');
    assert_eq!(choose_glyph(false, '_', 2_550_000), '_');
}

#[test]
fn pattern_entries_tile_by_coordinate() {
    let entry = PaletteEntry::Pattern {
        width: 2,
        height: 2,
        pixels: vec![(0, 0, 0), (1, 1, 1), (2, 2, 2), (3, 3, 3)],
    };
    let videos = VideoFrames::new();
    let col = (99, 99, 99);
    // index = (x mod height) * width + (y mod width)
    assert_eq!(resolve_entry_color(&entry, col, 0, 0, 0, &videos), (0, 0, 0));
    assert_eq!(resolve_entry_color(&entry, col, 0, 1, 0, &videos), (1, 1, 1));
    assert_eq!(resolve_entry_color(&entry, col, 1, 0, 0, &videos), (2, 2, 2));
    assert_eq!(resolve_entry_color(&entry, col, 3, 3, 0, &videos), (3, 3, 3));
}

#[test]
fn short_pattern_falls_back_to_sampled_color() {
    let entry = PaletteEntry::Pattern { width: 2, height: 2, pixels: vec![(0, 0, 0)] };
    let videos = VideoFrames::new();
    assert_eq!(resolve_entry_color(&entry, (7, 7, 7), 1, 1, 0, &videos), (7, 7, 7));
}

#[test]
fn animation_entries_advance_with_the_tick_counter() {
    let entry = PaletteEntry::Animation {
        delay: 2,
        width: 1,
        height: 1,
        frames: vec![vec![(10, 0, 0)], vec![(20, 0, 0)], vec![(30, 0, 0)]],
    };
    let videos = VideoFrames::new();
    let col = (0, 0, 0);
    assert_eq!(resolve_entry_color(&entry, col, 0, 0, 0, &videos), (10, 0, 0));
    assert_eq!(resolve_entry_color(&entry, col, 0, 0, 2, &videos), (20, 0, 0));
    assert_eq!(resolve_entry_color(&entry, col, 0, 0, 4, &videos), (30, 0, 0));
    assert_eq!(resolve_entry_color(&entry, col, 0, 0, 6, &videos), (10, 0, 0));
}

#[test]
fn video_entry_without_player_falls_back_to_sampled_color() {
    let entry = PaletteEntry::Video;
    let videos = VideoFrames::new();
    assert_eq!(resolve_entry_color(&entry, (255, 0, 0), 5, 6, 0, &videos), (255, 0, 0));
}

#[test]
fn video_entry_samples_the_playing_frame() {
    let entry = PaletteEntry::Video;
    let mut videos = VideoFrames::new();
    let width = 114i32;
    let height = 64i32;
    let mut pixels = vec![0u8; (width * height * 4) as usize];
    // Sampling (x, y) reads idx = width * (height - (x + 1)) * 4 + ((width - 64) / 2 + y) * 4.
    let x = 3i32;
    let y = 5i32;
    let idx = (width * (height - (x + 1)) * 4 + ((width - 64) / 2 + y) * 4) as usize;
    pixels[idx] = 11;
    pixels[idx + 1] = 22;
    pixels[idx + 2] = 33;
    videos.set_frame(PaletteType::PartyHat, VideoFrame { width, height, pixels });
    // (255,0,0) classifies to the accessory category, which has the frame.
    assert_eq!(resolve_entry_color(&entry, (255, 0, 0), x, y, 0, &videos), (11, 22, 33));
}

#[test]
fn pattern_from_rgba_maps_transparent_pixels_to_black() {
    let rgba = vec![9, 8, 7, 255, 1, 2, 3, 0];
    let entry = PaletteEntry::pattern_from_rgba(2, 1, &rgba);
    match entry {
        PaletteEntry::Pattern { width, height, pixels } => {
            assert_eq!((width, height), (2, 1));
            assert_eq!(pixels, vec![(9, 8, 7), (0, 0, 0)]);
        },
        _ => panic!("expected a pattern entry"),
    }
}

#[test]
fn frame_delay_converts_milliseconds_to_ticks() {
    assert_eq!(frame_delay_ticks(100, 2), 2);
    assert_eq!(frame_delay_ticks(33, 1), 1);
    assert_eq!(frame_delay_ticks(16, 1), 0);
}

#[test]
fn framebuffer_sampling_flips_columns() {
    let mut fb = Framebuffer::new(64, 64);
    let mut pixels = vec![0u8; 64 * 64 * 4];
    // The sample at (63, 0) reads from base index 0.
    pixels[0] = 9;
    pixels[1] = 8;
    pixels[2] = 7;
    fb.load_pixels(pixels);
    let bg = (0, 0, 0);
    assert_eq!(fb.get_pixel(bg, 63, 0), Some((9, 8, 7)));
    // Everything else matches the background key.
    assert_eq!(fb.get_pixel(bg, 0, 0), None);
    assert_eq!(fb.get_pixel(bg, 64, 0), None);
    assert_eq!(fb.get_pixel(bg, -1, 0), None);
}

#[test]
fn occupancy_mask_reflects_neighbor_bits() {
    let mut fb = Framebuffer::new(64, 64);
    let mut pixels = vec![0u8; 64 * 64 * 4];
    let paint = |pixels: &mut Vec<u8>, x: i32, y: i32| {
        let base = ((64 - (x + 1)) * 4 * 64 + y * 4) as usize;
        pixels[base] = 200;
    };
    // Neighbors of (10, 10): (x+1, y-1), (x+1, y) and (x+1, y+1) set the
    // three lowest bits.
    paint(&mut pixels, 11, 9);
    paint(&mut pixels, 11, 10);
    paint(&mut pixels, 11, 11);
    fb.load_pixels(pixels);
    assert_eq!(fb.get_surrounding((0, 0, 0), 10, 10), 0b0000_0111);
}

#[test]
fn control_properties_default_to_zero_and_latch() {
    let mut cs = ControlState::new();
    assert_eq!(cs.get("forsen"), 0);
    assert!(!cs.is("forsen"));
    cs.set("forsen", 1);
    assert_eq!(cs.get("forsen"), 1);
    assert!(cs.is("forsen"));
    cs.set("forsen", 0);
    assert!(!cs.is("forsen"));
    cs.set("zoom_wave", 5);
    assert_eq!(cs.get("zoom_wave"), 5);
    assert_eq!(cs.get("forsen"), 0);
}

#[test]
fn classic_mode_words_follow_the_region_rules() {
    assert_eq!(classic_word((10, 200, 10), "base"), "I");
    assert_eq!(classic_word((120, 120, 120), "base"), "#");
    assert_eq!(classic_word((10, 20, 30), "base"), "COAT");
    assert_eq!(classic_word((230, 100, 100), "base"), "o");
    assert_eq!(classic_word((200, 150, 250), "base"), "base");
}

#[test]
fn shadow_mode_highlights_eye_regions() {
    assert_eq!(shadow_word_color((10, 200, 10)), (String::from("ISEEYOU"), (255, 0, 0)));
    assert_eq!(shadow_word_color((200, 100, 100)), (String::from("hcolonw"), (100, 100, 100)));
}

#[test]
fn populating_classifies_and_composes_a_single_pixel() {
    let mut fb = Framebuffer::new(64, 64);
    let mut pixels = vec![0u8; 64 * 64 * 4];
    // The sample at framebuffer coordinate (0, 0) reads from base index
    // (64 - 1) * 4 * 64.
    let base = (64 - 1) * 4 * 64;
    pixels[base] = 187;
    pixels[base + 1] = 177;
    pixels[base + 2] = 190;
    fb.load_pixels(pixels);
    let palette = Palette::new();
    let videos = VideoFrames::new();
    let mut s = Streamer::new();
    s.populate(&fb, (0, 0, 0), 6, &videos, &palette);
    // An isolated hair-colored pixel: default word, no override, first two
    // word characters.
    assert_eq!(
        s.current.get(0, 0),
        glyphcast::grid::Cell::Foreground {
            custom_glyph: false,
            glyph0: 'l',
            glyph1: Some('c'),
            color: (187, 177, 190)
        }
    );
    assert_eq!(s.current.get(1, 0), glyphcast::grid::Cell::Background);
    assert_eq!(s.current.count, 0);
}
