use ascii_art::ascii::{paste, AsciiImage};
use ascii_art::glyph::{Glyph, GlyphCache, RasterError};
use ascii_art::raster::GrayImage;
use ascii_art::text::format_grid;

fn ramp(text: &str) -> Vec<char> {
    text.chars().collect()
}

fn uniform(width: u32, height: u32, value: u8) -> GrayImage {
    GrayImage::from_raw(width, height, vec![value; (width * height) as usize]).unwrap()
}

fn solid(width: usize, height: usize, ink: u8) -> Glyph {
    Glyph { width, height, coverage: vec![ink; width * height] }
}

fn glyphs_for_hash_dot_space() -> Vec<Glyph> {
    vec![
        Glyph { width: 3, height: 7, coverage: (0..21).map(|i| (i * 12) as u8).collect() },
        solid(1, 1, 255),
        solid(0, 0, 0),
    ]
}

#[test]
fn white_image_is_four_lines_of_doubled_spaces() {
    let ascii = AsciiImage::new(uniform(4, 4, 255), ramp("#. ")).unwrap();
    let grid = ascii.to_grid();
    assert_eq!(grid, vec![vec![' '; 4]; 4]);
    let line = " ".repeat(8);
    assert_eq!(ascii.to_text(), [line.as_str(); 4].join("\r\n"));
    assert_eq!(ascii.to_text(), "        \r\n        \r\n        \r\n        ");
}

#[test]
fn black_image_is_a_canvas_of_the_first_glyph() {
    let ascii = AsciiImage::new(uniform(2, 2, 0), ramp("#. ")).unwrap();
    let glyphs = glyphs_for_hash_dot_space();
    let canvas = ascii.rasterize(&glyphs, 8).unwrap();
    assert_eq!((canvas.width(), canvas.height()), (16, 16));
    let cache = GlyphCache::build(&ramp("#. "), &glyphs, 8).unwrap();
    let cell = cache.get('#').unwrap();
    for y in 0..16 {
        for x in 0..16 {
            assert_eq!(canvas.get_pixel(x, y), cell.get_pixel(x % 8, y % 8));
        }
    }
    assert_eq!(cell.get_pixel(2, 0), Some(255));
    assert_eq!(cell.get_pixel(3, 1), Some(207));
    assert_eq!(canvas.get_pixel(11, 9), Some(207));
}

#[test]
fn text_picks_the_character_of_each_sample() {
    let image = GrayImage::from_raw(3, 2, vec![0, 127, 128, 254, 255, 64]).unwrap();
    let ascii = AsciiImage::new(image, ramp("#. ")).unwrap();
    assert_eq!(ascii.to_grid(), vec![vec!['#', '#', '.'], vec!['.', ' ', '#']]);
    assert_eq!(ascii.to_text(), "####..\r\n..  ##");
}

#[test]
fn text_with_the_default_ramp() {
    let image = GrayImage::from_raw(5, 1, vec![0, 28, 29, 128, 255]).unwrap();
    let ascii = AsciiImage::new(image, ramp("@%#*+=-:. ")).unwrap();
    assert_eq!(ascii.to_text(), "@@@@%%++  ");
}

#[test]
fn text_of_one_row_has_no_line_break() {
    let ascii = AsciiImage::new(uniform(2, 1, 0), ramp("ab")).unwrap();
    assert_eq!(ascii.to_text(), "aaaa");
}

#[test]
fn text_of_an_image_without_pixels() {
    let ascii = AsciiImage::new(uniform(0, 0, 0), ramp("ab")).unwrap();
    assert_eq!(ascii.to_text(), "");
    let ascii = AsciiImage::new(uniform(0, 3, 0), ramp("ab")).unwrap();
    assert_eq!(ascii.to_text(), "\r\n\r\n");
    let ascii = AsciiImage::new(uniform(3, 0, 0), ramp("ab")).unwrap();
    assert_eq!(ascii.to_text(), "");
}

#[test]
fn text_with_wide_characters() {
    let image = GrayImage::from_raw(2, 1, vec![0, 255]).unwrap();
    let ascii = AsciiImage::new(image, ramp("█░")).unwrap();
    assert_eq!(ascii.to_text(), "██░░");
}

#[test]
fn format_grid_doubles_and_joins() {
    assert_eq!(format_grid(&vec![vec!['a', 'b'], vec![], vec!['c']]), "aabb\r\n\r\ncc");
    assert_eq!(format_grid(&Vec::new()), "");
    assert_eq!(format_grid(&vec![Vec::new()]), "");
    assert_eq!(format_grid(&vec![vec!['x']]), "xx");
}

#[test]
fn empty_ramp_is_refused() {
    assert!(AsciiImage::new(uniform(2, 2, 0), Vec::new()).is_none());
    assert!(AsciiImage::new(uniform(0, 0, 0), Vec::new()).is_none());
    assert!(AsciiImage::new(uniform(2, 2, 0), vec!['x']).is_some());
}

#[test]
fn raster_places_each_cell_at_its_block() {
    let image = GrayImage::from_raw(3, 2, vec![0, 128, 255, 255, 0, 128]).unwrap();
    let ascii = AsciiImage::new(image, ramp("#. ")).unwrap();
    let glyphs = glyphs_for_hash_dot_space();
    let canvas = ascii.rasterize(&glyphs, 8).unwrap();
    assert_eq!((canvas.width(), canvas.height()), (24, 16));
    let cache = GlyphCache::build(&ramp("#. "), &glyphs, 8).unwrap();
    let grid = ascii.to_grid();
    for by in 0..2u32 {
        for bx in 0..3u32 {
            let cell = cache.get(grid[by as usize][bx as usize]).unwrap();
            for py in 0..8 {
                for px in 0..8 {
                    assert_eq!(canvas.get_pixel(bx * 8 + px, by * 8 + py), cell.get_pixel(px, py));
                }
            }
        }
    }
    // the dot has one black pixel next to the centre, the space has none
    assert_eq!(canvas.get_pixel(8 + 3, 3), Some(0));
    assert_eq!(canvas.get_pixel(8 + 4, 3), Some(255));
    assert_eq!(canvas.get_pixel(16 + 3, 3), Some(255));
}

#[test]
fn composite_agrees_with_rasterize() {
    let image = GrayImage::from_raw(2, 2, vec![0, 90, 180, 255]).unwrap();
    let ascii = AsciiImage::new(image, ramp("#. ")).unwrap();
    let glyphs = glyphs_for_hash_dot_space();
    let cache = GlyphCache::build(&ramp("#. "), &glyphs, 8).unwrap();
    let composed = ascii.composite(&cache).unwrap();
    let rasterized = ascii.rasterize(&glyphs, 8).unwrap();
    assert_eq!(composed.into_raw(), rasterized.into_raw());
}

#[test]
fn raster_with_a_repeated_character_uses_its_last_glyph() {
    let ascii = AsciiImage::new(uniform(1, 1, 0), ramp("aa")).unwrap();
    let canvas = ascii.rasterize(&vec![solid(2, 2, 255), solid(2, 2, 100)], 2).unwrap();
    assert_eq!(canvas.into_raw(), vec![155; 4]);
}

#[test]
fn raster_of_an_image_without_pixels() {
    let ascii = AsciiImage::new(uniform(0, 0, 0), ramp("#. ")).unwrap();
    let canvas = ascii.rasterize(&glyphs_for_hash_dot_space(), 8).unwrap();
    assert_eq!((canvas.width(), canvas.height()), (0, 0));
}

#[test]
fn raster_with_cells_of_no_size() {
    let ascii = AsciiImage::new(uniform(3, 2, 0), ramp("#")).unwrap();
    let canvas = ascii.rasterize(&vec![solid(0, 0, 0)], 0).unwrap();
    assert_eq!((canvas.width(), canvas.height()), (0, 0));
}

#[test]
fn raster_needs_one_glyph_for_each_character() {
    let ascii = AsciiImage::new(uniform(2, 2, 0), ramp("#. ")).unwrap();
    assert_eq!(ascii.rasterize(&vec![solid(1, 1, 0)], 8).err(), Some(RasterError::GlyphCount));
}

#[test]
fn raster_fails_on_a_glyph_larger_than_the_cell() {
    let ascii = AsciiImage::new(uniform(2, 2, 255), ramp("#. ")).unwrap();
    let glyphs = vec![solid(3, 9, 255), solid(1, 1, 255), solid(0, 0, 0)];
    assert_eq!(ascii.rasterize(&glyphs, 8).err(), Some(RasterError::GlyphTooLarge { ch: '#' }));
    assert!(ascii.rasterize(&glyphs, 9).is_ok());
}

#[test]
fn raster_fails_on_short_coverage() {
    let ascii = AsciiImage::new(uniform(2, 2, 255), ramp("#.")).unwrap();
    let glyphs = vec![solid(1, 1, 255), Glyph { width: 2, height: 2, coverage: vec![0; 3] }];
    assert_eq!(ascii.rasterize(&glyphs, 8).err(), Some(RasterError::CoverageTooShort { ch: '.' }));
}

#[test]
fn raster_fails_on_a_canvas_wider_than_32_bits() {
    let ascii = AsciiImage::new(uniform(1 << 24, 1, 0), ramp("#")).unwrap();
    assert_eq!(ascii.rasterize(&vec![solid(0, 0, 0)], 256).err(), Some(RasterError::CanvasTooLarge));
    let ascii = AsciiImage::new(uniform(1, 1 << 24, 0), ramp("#")).unwrap();
    assert_eq!(ascii.rasterize(&vec![solid(0, 0, 0)], 256).err(), Some(RasterError::CanvasTooLarge));
}

#[test]
fn raster_of_a_glyph_as_high_as_the_cell() {
    let ascii = AsciiImage::new(uniform(1, 1, 0), ramp("#")).unwrap();
    let glyphs = vec![Glyph { width: 1, height: 2, coverage: vec![255, 255] }];
    let canvas = ascii.rasterize(&glyphs, 2).unwrap();
    assert_eq!((canvas.width(), canvas.height()), (2, 2));
    assert_eq!(canvas.into_raw(), vec![0, 255, 0, 255]);
}

#[test]
fn raster_of_one_light_pixel() {
    let ascii = AsciiImage::new(uniform(1, 1, 200), ramp("#. ")).unwrap();
    let glyphs = vec![
        Glyph { width: 1, height: 1, coverage: vec![255] },
        Glyph { width: 1, height: 1, coverage: vec![100] },
        Glyph { width: 1, height: 1, coverage: vec![0] },
    ];
    let canvas = ascii.rasterize(&glyphs, 3).unwrap();
    assert_eq!((canvas.width(), canvas.height()), (3, 3));
    assert_eq!(canvas.into_raw(), vec![255, 255, 255, 255, 155, 255, 255, 255, 255]);
}

#[test]
fn paste_overwrites_one_square() {
    let mut canvas = uniform(4, 3, 9);
    let cell = GrayImage::from_raw(2, 2, vec![1, 2, 3, 4]).unwrap();
    paste(&mut canvas, &cell, 1, 1, 2);
    let expected = vec![
        9, 9, 9, 9,
        9, 1, 2, 9,
        9, 3, 4, 9,
    ];
    assert_eq!(canvas.into_raw(), expected);
}
