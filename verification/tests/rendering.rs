use cascii::atlas::{build_glyph_atlas, rasterize_glyph, CoverageSample, GlyphAtlas};
use cascii::frame::AsciiFrameData;
use cascii::render::{blend_channel, can_render, pixel_dimensions, render_ascii_frame_to_rgb};

fn level_at(x: u32, y: u32) -> u8 {
    ((x * 37 + y * 11) % 256) as u8
}

fn outline(width: u32, height: u32) -> Vec<CoverageSample> {
    let mut samples = Vec::new();
    for y in 0..height {
        for x in 0..width {
            samples.push(CoverageSample { x, y, level: level_at(x, y) });
        }
    }
    samples
}

fn atlas_with(width: u32, height: u32, bytes: &[u8]) -> GlyphAtlas {
    let mut outlines: Vec<Vec<CoverageSample>> = vec![Vec::new(); 95];
    for b in bytes {
        outlines[(*b - 32) as usize] = outline(width, height);
    }
    build_glyph_atlas(width, height, &outlines)
}

fn frame(width: u32, height: u32, text: &[u8], colors: Vec<u8>) -> AsciiFrameData {
    AsciiFrameData {
        ascii_text: text.to_vec(),
        width_chars: width,
        height_chars: height,
        rgb_colors: colors,
    }
}

#[test]
fn samples_fill_the_bitmap() {
    let samples = vec![
        CoverageSample { x: 0, y: 0, level: 10 },
        CoverageSample { x: 2, y: 1, level: 20 },
        CoverageSample { x: 1, y: 1, level: 30 },
    ];
    let bitmap = rasterize_glyph(3, 2, &samples);
    assert_eq!(bitmap.alpha, vec![10, 0, 0, 0, 30, 20]);
}

#[test]
fn samples_outside_the_cell_are_dropped() {
    let samples = vec![
        CoverageSample { x: 3, y: 0, level: 99 },
        CoverageSample { x: 0, y: 2, level: 98 },
        CoverageSample { x: u32::MAX, y: u32::MAX, level: 97 },
        CoverageSample { x: 1, y: 1, level: 5 },
    ];
    let bitmap = rasterize_glyph(3, 2, &samples);
    assert_eq!(bitmap.alpha, vec![0, 0, 0, 0, 5, 0]);
}

#[test]
fn later_samples_win() {
    let samples = vec![
        CoverageSample { x: 1, y: 0, level: 1 },
        CoverageSample { x: 1, y: 0, level: 2 },
    ];
    assert_eq!(rasterize_glyph(2, 1, &samples).alpha, vec![0, 2]);
    assert_eq!(rasterize_glyph(0, 5, &samples).alpha, Vec::<u8>::new());
}

#[test]
fn atlas_holds_the_printable_bytes() {
    let atlas = atlas_with(2, 3, b"X");
    assert_eq!(atlas.cell_width(), 2);
    assert_eq!(atlas.cell_height(), 3);
    for byte in 0u8..=255 {
        let glyph = atlas.glyph(byte);
        assert_eq!(glyph.is_some(), (32..=126).contains(&byte));
        if let Some(bitmap) = glyph {
            assert_eq!(bitmap.alpha.len(), 6);
            if byte == b'X' {
                assert_eq!(bitmap.alpha, vec![0, 37, 11, 48, 22, 59]);
            } else {
                assert_eq!(bitmap.alpha, vec![0; 6]);
            }
        }
    }
}

#[test]
fn missing_outlines_give_empty_glyphs() {
    let atlas = build_glyph_atlas(2, 2, &[]);
    assert_eq!(atlas.glyph(b'A').unwrap().alpha, vec![0; 4]);
    assert_eq!(atlas.glyph(126).unwrap().alpha, vec![0; 4]);
    assert!(atlas.glyph(127).is_none());
    assert!(atlas.glyph(31).is_none());
    let long: Vec<Vec<CoverageSample>> = vec![vec![CoverageSample { x: 0, y: 0, level: 9 }]; 200];
    let atlas = build_glyph_atlas(1, 1, &long);
    assert_eq!(atlas.glyph(b'~').unwrap().alpha, vec![9]);
    assert!(atlas.glyph(127).is_none());
}

#[test]
fn pixel_dimensions_are_the_least_even_numbers() {
    assert_eq!(pixel_dimensions(100, 50, 8, 16), Some((800, 800)));
    assert_eq!(pixel_dimensions(3, 5, 7, 9), Some((22, 46)));
    assert_eq!(pixel_dimensions(1, 1, 1, 1), Some((2, 2)));
    assert_eq!(pixel_dimensions(0, 7, 9, 0), Some((0, 0)));
    assert_eq!(pixel_dimensions(65536, 1, 65536, 1), None);
    assert_eq!(pixel_dimensions(u32::MAX, 1, 1, 1), None);
    assert_eq!(pixel_dimensions(4294967294, 2, 1, 1), Some((4294967294, 2)));
    for chars in 0u32..20 {
        for cell in 0u32..20 {
            let (w, h) = pixel_dimensions(chars, cell, cell, chars).unwrap();
            assert_eq!(w % 2, 0);
            assert_eq!(h % 2, 0);
            assert!(w >= chars * cell && w < chars * cell + 2);
            assert_eq!(w, h);
        }
    }
}

#[test]
fn rendering_limits_are_checked() {
    assert!(can_render(100, 50, 8, 16));
    assert!(!can_render(u32::MAX, 1, 2, 1));
    assert!(!can_render(u32::MAX, u32::MAX, 1, 1));
}

#[test]
fn blending_weighs_by_coverage() {
    assert_eq!(blend_channel(255, 255), 255);
    assert_eq!(blend_channel(255, 0), 0);
    assert_eq!(blend_channel(0, 255), 0);
    assert_eq!(blend_channel(255, 77), 77);
    assert_eq!(blend_channel(200, 128), 100);
    assert_eq!(blend_channel(100, 127), 49);
}

#[test]
fn full_grid_renders_every_cell() {
    let atlas = atlas_with(8, 16, b"X");
    let mut text = Vec::new();
    for _ in 0..50 {
        text.extend_from_slice(&[b'X'; 100]);
        text.push(b'\n');
    }
    let buffer = render_ascii_frame_to_rgb(&frame(100, 50, &text, Vec::new()), &atlas, false);
    assert_eq!(buffer.len(), 800 * 800 * 3);
    for py in 0..800u32 {
        for px in 0..800u32 {
            let at = ((py * 800 + px) * 3) as usize;
            let expected = level_at(px % 8, py % 16);
            assert_eq!(&buffer[at..at + 3], &[expected, expected, expected]);
        }
    }
}

#[test]
fn rendering_is_repeatable() {
    let atlas = atlas_with(3, 5, b"abc#");
    let colors: Vec<u8> = (0..4 * 2 * 3).map(|i| (i * 10) as u8).collect();
    let f = frame(4, 2, b"ab c\n#cb \n", colors);
    let first = render_ascii_frame_to_rgb(&f, &atlas, true);
    let second = render_ascii_frame_to_rgb(&f, &atlas, true);
    assert_eq!(first, second);
    let other = atlas_with(3, 5, b"abc#");
    assert_eq!(render_ascii_frame_to_rgb(&f.clone(), &other, true), first);
}

#[test]
fn colors_weigh_each_cell() {
    let atlas = atlas_with(2, 2, b"ab");
    let f = frame(2, 1, b"ab\n", vec![200, 100, 50, 10, 20, 30]);
    let buffer = render_ascii_frame_to_rgb(&f, &atlas, true);
    assert_eq!(buffer.len(), 4 * 2 * 3);
    let levels = [[0u8, 37], [11, 48]];
    for py in 0..2usize {
        for px in 0..4usize {
            let cell = px / 2;
            let level = levels[py][px % 2] as u32;
            let color: [u32; 3] = if cell == 0 { [200, 100, 50] } else { [10, 20, 30] };
            let at = (py * 4 + px) * 3;
            for c in 0..3 {
                assert_eq!(buffer[at + c] as u32, color[c] * level / 255);
            }
        }
    }
    let white = render_ascii_frame_to_rgb(&f, &atlas, false);
    assert_eq!(&white[3..6], &[37, 37, 37]);
}

#[test]
fn missing_colors_render_white() {
    let atlas_one = build_glyph_atlas(
        1,
        1,
        &{
            let mut o: Vec<Vec<CoverageSample>> = vec![Vec::new(); 95];
            o[(b'a' - 32) as usize] = vec![CoverageSample { x: 0, y: 0, level: 255 }];
            o
        },
    );
    let f = frame(2, 1, b"aa\n", vec![9, 8, 7]);
    let buffer = render_ascii_frame_to_rgb(&f, &atlas_one, true);
    assert_eq!(buffer.len(), 2 * 2 * 3);
    assert_eq!(&buffer[0..6], &[9, 8, 7, 255, 255, 255]);
    assert_eq!(&buffer[6..12], &[0; 6]);
}

#[test]
fn odd_sizes_are_padded_with_black() {
    let mut outlines: Vec<Vec<CoverageSample>> = vec![Vec::new(); 95];
    let mut full = Vec::new();
    for y in 0..3 {
        for x in 0..3 {
            full.push(CoverageSample { x, y, level: 255 });
        }
    }
    outlines[(b'#' - 32) as usize] = full;
    let atlas = build_glyph_atlas(3, 3, &outlines);
    let buffer = render_ascii_frame_to_rgb(&frame(1, 1, b"#\n", Vec::new()), &atlas, false);
    assert_eq!(buffer.len(), 4 * 4 * 3);
    for py in 0..4usize {
        for px in 0..4usize {
            let at = (py * 4 + px) * 3;
            let expected = if px < 3 && py < 3 { 255 } else { 0 };
            assert_eq!(&buffer[at..at + 3], &[expected; 3]);
        }
    }
}

#[test]
fn spaces_and_unknown_bytes_stay_black() {
    let mut outlines: Vec<Vec<CoverageSample>> = vec![Vec::new(); 95];
    for o in outlines.iter_mut() {
        o.push(CoverageSample { x: 0, y: 0, level: 255 });
    }
    let atlas = build_glyph_atlas(2, 2, &outlines);
    let text = [b' ', 7, 200, b'a', b'\n'];
    let buffer = render_ascii_frame_to_rgb(&frame(4, 1, &text, Vec::new()), &atlas, false);
    assert_eq!(buffer.len(), 8 * 2 * 3);
    for px in 0..8usize {
        let expected = if px == 6 { 255 } else { 0 };
        assert_eq!(buffer[px * 3], expected);
    }
    assert_eq!(&buffer[24..48], &[0; 24]);
}

#[test]
fn short_and_long_texts_render_what_fits() {
    let mut outlines: Vec<Vec<CoverageSample>> = vec![Vec::new(); 95];
    outlines[(b'a' - 32) as usize] = vec![CoverageSample { x: 0, y: 0, level: 255 }];
    let atlas = build_glyph_atlas(2, 2, &outlines);
    let short = render_ascii_frame_to_rgb(&frame(2, 2, b"aa\na", Vec::new()), &atlas, false);
    assert_eq!(short.len(), 4 * 4 * 3);
    let lit: Vec<usize> = (0..16).filter(|p| short[p * 3] == 255).collect();
    assert_eq!(lit, vec![0, 2, 8]);
    let long = render_ascii_frame_to_rgb(&frame(2, 1, b"aaaaaa", Vec::new()), &atlas, false);
    assert_eq!(long.len(), 4 * 2 * 3);
    let lit: Vec<usize> = (0..8).filter(|p| long[p * 3] == 255).collect();
    assert_eq!(lit, vec![0, 2]);
    let unbroken = render_ascii_frame_to_rgb(&frame(2, 2, b"aaaa", Vec::new()), &atlas, false);
    let broken = render_ascii_frame_to_rgb(&frame(2, 2, b"aa\naa\n", Vec::new()), &atlas, false);
    assert_eq!(unbroken, broken);
}

#[test]
fn empty_grids_render_nothing() {
    let atlas = build_glyph_atlas(4, 4, &[]);
    assert!(render_ascii_frame_to_rgb(&frame(0, 0, b"", Vec::new()), &atlas, true).is_empty());
    assert!(render_ascii_frame_to_rgb(&frame(0, 3, b"\n\n\n", Vec::new()), &atlas, true).is_empty());
}
