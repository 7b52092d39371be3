use ascii_art::glyph::{rasterize_glyph, Glyph, GlyphCache, RasterError};

fn glyph(width: usize, height: usize, coverage: Vec<u8>) -> Glyph {
    Glyph { width, height, coverage }
}

fn solid(width: usize, height: usize, ink: u8) -> Glyph {
    glyph(width, height, vec![ink; width * height])
}

#[test]
fn glyph_is_centred_and_inverted() {
    let mask = glyph(2, 3, vec![10, 20, 30, 40, 50, 255]);
    let cell = rasterize_glyph('x', &mask, 5).unwrap();
    assert_eq!((cell.width(), cell.height()), (5, 5));
    let expected = vec![
        255, 255, 255, 255, 255,
        255, 245, 235, 255, 255,
        255, 225, 215, 255, 255,
        255, 205,   0, 255, 255,
        255, 255, 255, 255, 255,
    ];
    assert_eq!(cell.into_raw(), expected);
}

#[test]
fn glyph_with_an_odd_margin_leans_to_the_top_left() {
    let mask = glyph(1, 2, vec![255, 254, 253, 252]);
    let cell = rasterize_glyph('|', &mask, 4).unwrap();
    let expected = vec![
        255, 255, 255, 255,
        255,   0, 255, 255,
        255,   1, 255, 255,
        255, 255, 255, 255,
    ];
    assert_eq!(cell.into_raw(), expected);
    let mask = glyph(2, 1, vec![255, 254]);
    let cell = rasterize_glyph('-', &mask, 5).unwrap();
    let expected = vec![
        255, 255, 255, 255, 255,
        255, 255, 255, 255, 255,
        255,   0,   1, 255, 255,
        255, 255, 255, 255, 255,
        255, 255, 255, 255, 255,
    ];
    assert_eq!(cell.into_raw(), expected);
}

#[test]
fn glyph_without_ink_is_a_white_cell() {
    let cell = rasterize_glyph(' ', &glyph(0, 0, Vec::new()), 3).unwrap();
    assert_eq!(cell.into_raw(), vec![255; 9]);
    let cell = rasterize_glyph(' ', &glyph(0, 0, Vec::new()), 0).unwrap();
    assert_eq!((cell.width(), cell.height()), (0, 0));
}

#[test]
fn glyph_as_high_as_the_cell_fits() {
    let cell = rasterize_glyph('I', &solid(1, 8, 255), 8).unwrap();
    for y in 0..8 {
        assert_eq!(cell.get_pixel(3, y), Some(0));
        assert_eq!(cell.get_pixel(2, y), Some(255));
        assert_eq!(cell.get_pixel(4, y), Some(255));
    }
}

#[test]
fn glyph_higher_than_the_cell_is_refused() {
    assert_eq!(rasterize_glyph('I', &solid(1, 9, 255), 8).err(), Some(RasterError::GlyphTooLarge { ch: 'I' }));
}

#[test]
fn glyph_as_wide_as_the_cell_fits() {
    let cell = rasterize_glyph('-', &solid(8, 1, 255), 8).unwrap();
    for x in 0..8 {
        assert_eq!(cell.get_pixel(x, 3), Some(0));
    }
}

#[test]
fn glyph_wider_than_the_cell_is_refused() {
    assert_eq!(rasterize_glyph('W', &solid(9, 1, 255), 8).err(), Some(RasterError::GlyphTooLarge { ch: 'W' }));
}

#[test]
fn glyph_that_fills_the_cell() {
    let cell = rasterize_glyph('#', &solid(4, 4, 200), 4).unwrap();
    assert_eq!(cell.into_raw(), vec![55; 16]);
}

#[test]
fn glyph_with_short_coverage_is_refused() {
    assert_eq!(rasterize_glyph('q', &glyph(2, 2, vec![1, 2, 3]), 8).err(), Some(RasterError::CoverageTooShort { ch: 'q' }));
}

#[test]
fn glyph_with_long_coverage_ignores_the_rest() {
    let cell = rasterize_glyph('q', &glyph(1, 1, vec![100, 7, 7]), 1).unwrap();
    assert_eq!(cell.into_raw(), vec![155]);
}

#[test]
fn glyph_size_is_checked_before_the_coverage() {
    assert_eq!(rasterize_glyph('q', &glyph(9, 9, Vec::new()), 8).err(), Some(RasterError::GlyphTooLarge { ch: 'q' }));
}

#[test]
fn glyph_cell_must_fit_in_memory() {
    assert_eq!(rasterize_glyph(' ', &glyph(0, 0, Vec::new()), u32::MAX).err(), Some(RasterError::CanvasTooLarge));
}

#[test]
fn cache_holds_every_ramp_character_once() {
    let ramp: Vec<char> = "#. #".chars().collect();
    let glyphs = vec![solid(2, 2, 255), solid(1, 1, 128), solid(0, 0, 0), solid(4, 4, 255)];
    let cache = GlyphCache::build(&ramp, &glyphs, 4).unwrap();
    assert_eq!(cache.cell_size(), 4);
    for ch in ['#', '.', ' '] {
        let cell = cache.get(ch).unwrap();
        assert_eq!((cell.width(), cell.height()), (4, 4));
    }
    assert!(cache.get('@').is_none());
    assert!(cache.get('\0').is_none());
}

#[test]
fn cache_keeps_the_last_glyph_of_a_repeated_character() {
    let ramp: Vec<char> = "#. #".chars().collect();
    let glyphs = vec![solid(2, 2, 255), solid(1, 1, 128), solid(0, 0, 0), solid(4, 4, 255)];
    let cache = GlyphCache::build(&ramp, &glyphs, 4).unwrap();
    assert_eq!(cache.get('#').unwrap().get_pixel(0, 0), Some(0));
    assert_eq!(cache.get('.').unwrap().get_pixel(1, 1), Some(127));
    assert_eq!(cache.get('.').unwrap().get_pixel(0, 0), Some(255));
    assert_eq!(cache.get(' ').unwrap().get_pixel(2, 2), Some(255));
}

#[test]
fn cache_cells_are_the_rasterized_glyphs() {
    let ramp: Vec<char> = "ab".chars().collect();
    let glyphs = vec![glyph(2, 1, vec![1, 2]), glyph(1, 2, vec![3, 4])];
    let cache = GlyphCache::build(&ramp, &glyphs, 3).unwrap();
    for (ch, mask) in ramp.iter().zip(glyphs.iter()) {
        let cell = rasterize_glyph(*ch, mask, 3).unwrap();
        for y in 0..3 {
            for x in 0..3 {
                assert_eq!(cache.get(*ch).unwrap().get_pixel(x, y), cell.get_pixel(x, y));
            }
        }
    }
}

#[test]
fn cache_needs_one_glyph_for_each_character() {
    let ramp: Vec<char> = "ab".chars().collect();
    assert_eq!(GlyphCache::build(&ramp, &vec![solid(1, 1, 0)], 3).err(), Some(RasterError::GlyphCount));
    assert_eq!(GlyphCache::build(&ramp, &vec![solid(1, 1, 0); 3], 3).err(), Some(RasterError::GlyphCount));
    assert_eq!(GlyphCache::build(&ramp, &Vec::new(), 3).err(), Some(RasterError::GlyphCount));
}

#[test]
fn cache_reports_the_first_character_that_fails() {
    let ramp: Vec<char> = "abc".chars().collect();
    let glyphs = vec![solid(1, 1, 0), glyph(2, 2, vec![0]), solid(9, 9, 0)];
    assert_eq!(GlyphCache::build(&ramp, &glyphs, 3).err(), Some(RasterError::CoverageTooShort { ch: 'b' }));
    let glyphs = vec![solid(1, 1, 0), solid(9, 9, 0), glyph(2, 2, vec![0])];
    assert_eq!(GlyphCache::build(&ramp, &glyphs, 3).err(), Some(RasterError::GlyphTooLarge { ch: 'b' }));
}

#[test]
fn cache_of_an_empty_ramp_is_empty() {
    let cache = GlyphCache::build(&Vec::new(), &Vec::new(), 8).unwrap();
    assert!(cache.get('a').is_none());
    assert_eq!(cache.cell_size(), 8);
}
