//! Grid, diff, codec and streamer behavior on concrete values.
use glyphcast::codec::{decode_frame, Frame};
use glyphcast::diff::Diff;
use glyphcast::grid::{Cell, Term, GRID_CELLS};
use glyphcast::stream::{is_publish_tick, is_render_tick, Streamer};

fn fg(g0: char, g1: Option<char>, color: (u8, u8, u8)) -> Cell {
    Cell::Foreground { custom_glyph: false, glyph0: g0, glyph1: g1, color }
}

#[test]
fn diff_of_identical_grids_is_empty() {
    let mut a = Term::new();
    a.write(3, 4, true, 'q', Some('r'), (9, 9, 9));
    let d = Diff::new(&a, &a);
    assert_eq!(d.diff.len(), 0);
}

#[test]
fn diff_of_fresh_grids_is_empty() {
    let a = Term::new();
    let b = Term::new();
    let d = Diff::new(&a, &b);
    assert_eq!(d.diff.len(), 0);
}

#[test]
fn diff_lists_changed_cells_in_scan_order() {
    let a = Term::new();
    let mut b = Term::new();
    b.write(5, 2, false, 'x', None, (1, 2, 3));
    b.write(1, 7, false, 'y', Some('z'), (4, 5, 6));
    let d = Diff::new(&a, &b);
    assert_eq!(d.diff.len(), 2);
    // Row-major: y = 2 before y = 7.
    assert_eq!((d.diff[0].0, d.diff[0].1), (5, 2));
    assert_eq!((d.diff[1].0, d.diff[1].1), (1, 7));
    assert_eq!(d.diff[0].2, fg('x', None, (1, 2, 3)));
}

#[test]
fn applying_diff_reconstructs_target() {
    let mut a = Term::new();
    a.write(0, 0, false, 'a', Some('b'), (1, 1, 1));
    a.write(63, 63, true, 'c', None, (2, 2, 2));
    let mut b = Term::new();
    b.write(0, 0, false, 'd', Some('e'), (3, 3, 3));
    b.write(10, 20, false, 'f', Some('g'), (4, 4, 4));
    let d = Diff::new(&a, &b);
    let mut mirror = Term::new();
    mirror.copy_from(&a);
    d.apply(&mut mirror);
    for y in 0..64 {
        for x in 0..64 {
            assert_eq!(mirror.get(x, y), b.get(x, y));
        }
    }
}

#[test]
fn background_cell_serializes_to_one_zero_byte() {
    let mut out = Vec::new();
    Cell::Background.serialize(&mut out);
    assert_eq!(out, vec![0u8]);
}

#[test]
fn foreground_cell_serializes_to_tagged_fields() {
    let mut out = Vec::new();
    let c = Cell::Foreground {
        custom_glyph: true,
        glyph0: 'A',
        glyph1: Some('B'),
        color: (1, 2, 3),
    };
    c.serialize(&mut out);
    assert_eq!(out, vec![1, 1, 1, 2, 3, 0, 0, 0, 65, 1, 0, 0, 0, 66]);
}

#[test]
fn foreground_cell_without_second_glyph_ends_in_zero() {
    let mut out = Vec::new();
    let c = Cell::Foreground {
        custom_glyph: false,
        glyph0: '~',
        glyph1: None,
        color: (255, 0, 9),
    };
    c.serialize(&mut out);
    assert_eq!(out, vec![1, 0, 255, 0, 9, 0, 0, 0, 126, 0]);
}

#[test]
fn empty_grid_full_frame_is_tag_and_zero_bytes() {
    let t = Term::new();
    let bytes = t.serialize();
    assert_eq!(bytes.len(), GRID_CELLS + 1);
    assert!(bytes.iter().all(|b| *b == 0));
}

#[test]
fn full_frame_round_trips_through_compression() {
    let mut t = Term::new();
    t.write(1, 2, false, 'l', Some('c'), (187, 177, 190));
    t.write(63, 0, true, '😀', None, (255, 0, 0));
    let wire = t.serialize_and_compress();
    match decode_frame(&wire) {
        Some(Frame::Full(mirror)) => {
            for y in 0..64 {
                for x in 0..64 {
                    assert_eq!(mirror.get(x, y), t.get(x, y));
                }
            }
        },
        _ => panic!("expected a full frame"),
    }
}

#[test]
fn diff_frame_round_trips_through_compression() {
    let a = Term::new();
    let mut b = Term::new();
    b.write(7, 9, false, 'x', Some('y'), (10, 20, 30));
    b.write(0, 63, true, 'z', None, (40, 50, 60));
    let d = Diff::new(&a, &b);
    let wire = d.serialize_and_compress();
    match decode_frame(&wire) {
        Some(Frame::Delta(d2)) => {
            assert_eq!(d2.diff.len(), d.diff.len());
            for i in 0..d.diff.len() {
                assert_eq!(d2.diff[i], d.diff[i]);
            }
        },
        _ => panic!("expected a diff frame"),
    }
}

#[test]
fn decode_frame_rejects_garbage() {
    let garbage = vec![1u8, 2, 3, 4, 5];
    assert!(decode_frame(&garbage).is_none());
}

#[test]
fn frame_apply_replaces_or_patches_mirror() {
    let mut published = Term::new();
    published.write(2, 2, false, 'k', None, (5, 5, 5));
    let wire = published.serialize_and_compress();
    let mut mirror = Term::new();
    mirror.write(9, 9, false, 'o', None, (6, 6, 6));
    match decode_frame(&wire) {
        Some(frame) => frame.apply(&mut mirror),
        None => panic!("full frame did not decode"),
    }
    for y in 0..64 {
        for x in 0..64 {
            assert_eq!(mirror.get(x, y), published.get(x, y));
        }
    }

    let mut next = Term::new();
    next.write(2, 2, false, 'k', None, (5, 5, 5));
    next.write(3, 3, false, 'm', None, (7, 7, 7));
    let d = Diff::new(&published, &next);
    let wire2 = d.serialize_and_compress();
    match decode_frame(&wire2) {
        Some(frame) => frame.apply(&mut mirror),
        None => panic!("diff frame did not decode"),
    }
    for y in 0..64 {
        for x in 0..64 {
            assert_eq!(mirror.get(x, y), next.get(x, y));
        }
    }
}

#[test]
fn keyframe_counter_cycles_every_tenth_frame() {
    let mut s = Streamer::new();
    for n in 0..25 {
        let (_, was_full) = s.publish();
        assert_eq!(was_full, n % 10 == 0, "publication {}", n);
    }
}

#[test]
fn first_published_frame_is_the_background_keyframe() {
    let mut s = Streamer::new();
    let (wire, was_full) = s.publish();
    assert!(was_full);
    match decode_frame(&wire) {
        Some(Frame::Full(g)) => {
            for y in 0..64 {
                for x in 0..64 {
                    assert_eq!(g.get(x, y), Cell::Background);
                }
            }
        },
        _ => panic!("expected a full frame"),
    }
}

#[test]
fn published_diff_tracks_changes_since_last_publication() {
    let mut s = Streamer::new();
    let (_, first_full) = s.publish();
    assert!(first_full);
    s.current.write(4, 4, false, 'w', None, (8, 8, 8));
    let (wire, was_full) = s.publish();
    assert!(!was_full);
    match decode_frame(&wire) {
        Some(Frame::Delta(d)) => {
            assert_eq!(d.diff.len(), 1);
            assert_eq!((d.diff[0].0, d.diff[0].1), (4, 4));
        },
        _ => panic!("expected a diff frame"),
    }
}

#[test]
fn tick_cadence_matches_the_documented_rates() {
    assert!(is_render_tick(6));
    assert!(is_render_tick(12));
    assert!(!is_render_tick(7));
    assert!(is_publish_tick(12));
    assert!(!is_publish_tick(6));
    assert!(is_publish_tick(24));
}

#[test]
fn nocolor_rendering_of_empty_grid_is_blank_rows() {
    let t = Term::new();
    let s = t.render_stream_nocolor();
    assert_eq!(s, format!("\x1b[2J\x1b[1;1H{}", "\r\n".repeat(64)));
    let small = t.render_stream_nocolor_small();
    assert_eq!(small, format!("\x1b[2J\x1b[1;1H{}", "\r\n".repeat(32)));
}

#[test]
fn nocolor_rendering_substitutes_density_glyphs() {
    let mut t = Term::new();
    // Bright plain glyphs become the densest mark; explicit and
    // line-drawing glyphs pass through.
    t.write(0, 0, false, 'q', Some('x'), (255, 255, 255));
    t.write(1, 0, true, 'q', Some('x'), (255, 255, 255));
    t.write(2, 0, false, '/', None, (0, 0, 0));
    let s = t.render_stream_nocolor();
    let expected = format!("\x1b[2J\x1b[1;1H##qx/\r\n{}", "\r\n".repeat(63));
    assert_eq!(s, expected);
}

#[test]
fn half_resolution_rendering_skips_odd_rows_and_columns() {
    let mut t = Term::new();
    t.write(0, 0, false, '#', None, (255, 255, 255));
    t.write(1, 1, false, '#', None, (255, 255, 255));
    let s = t.render_stream_nocolor_small();
    // Only the cell at the even coordinate is sampled.
    let expected = format!("\x1b[2J\x1b[1;1H#\r\n{}", "\r\n".repeat(31));
    assert_eq!(s, expected);
}
