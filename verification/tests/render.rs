use glyphgrid::bitmap::BinaryImage;
use glyphgrid::glyphs::{CellTemplate, ConfigurationMismatch, GlyphSet};
use glyphgrid::mask::cell_index;
use glyphgrid::render::{generate, generate_blocks, generate_braille, render};

/// The image drawn by `rows`, in which `#` is a dot that is on.
fn drawn(rows: &[&str]) -> BinaryImage {
    let height = rows.len() as u32;
    let width = rows.first().map_or(0, |row| row.chars().count()) as u32;
    let dots: Vec<bool> = rows.iter().flat_map(|row| row.chars().map(|dot| dot == '#')).collect();
    BinaryImage::new(width, height, dots).unwrap()
}

fn filled(width: u32, height: u32, on: bool) -> BinaryImage {
    BinaryImage::new(width, height, vec![on; (width * height) as usize]).unwrap()
}

#[test]
fn full_block_for_two_by_two_dots() {
    assert_eq!(generate_blocks(&filled(2, 2, true)), "█");
}

#[test]
fn full_braille_cell_for_two_by_four_dots() {
    let text = generate_braille(&filled(2, 4, true));
    assert_eq!(text, "⣿");
    assert_eq!(text.chars().next().map(|glyph| glyph as u32), Some(0x2800 + 255));
}

#[test]
fn blank_image_renders_to_the_first_glyph() {
    assert_eq!(generate_blocks(&filled(6, 4, false)), "   \n   ");
    assert_eq!(generate_braille(&filled(6, 4, false)), "⠀⠀⠀");
    assert_eq!(generate_blocks(&filled(5, 3, false)), "   \n   ");
}

#[test]
fn full_image_renders_to_the_last_glyph() {
    assert_eq!(generate_blocks(&filled(6, 4, true)), "███\n███");
    assert_eq!(generate_braille(&filled(6, 8, true)), "⣿⣿⣿\n⣿⣿⣿");
}

#[test]
fn partial_cells_count_missing_dots_as_off() {
    assert_eq!(generate_blocks(&filled(3, 3, true)), "█▌\n▀▘");
}

#[test]
fn partial_braille_cells_count_missing_dots_as_off() {
    // Three dots wide and five high: the right cells keep their left
    // column, the lower cells their first row.
    assert_eq!(generate_braille(&filled(3, 5, true)), "⣿⡇\n⠉⠁");
}

#[test]
fn every_block_quadrant_has_its_bit() {
    assert_eq!(generate_blocks(&drawn(&["#.", ".."])), "▘");
    assert_eq!(generate_blocks(&drawn(&[".#", ".."])), "▝");
    assert_eq!(generate_blocks(&drawn(&["..", "#."])), "▖");
    assert_eq!(generate_blocks(&drawn(&["..", ".#"])), "▗");
}

#[test]
fn every_braille_dot_has_its_bit() {
    let bits = [[0u32, 3], [1, 4], [2, 5], [6, 7]];
    for row in 0..4u32 {
        for column in 0..2u32 {
            let mut dots = vec![false; 8];
            dots[(row * 2 + column) as usize] = true;
            let image = BinaryImage::new(2, 4, dots).unwrap();
            let expected = char::from_u32(0x2800 + (1 << bits[row as usize][column as usize]));
            assert_eq!(generate_braille(&image).chars().next(), expected);
        }
    }
}

#[test]
fn blocks_combine_the_bits_of_their_dots() {
    let image = drawn(&["##..#.", "...##.", ".##..#", "#..#.#"]);
    assert_eq!(generate_blocks(&image), "▀▗▌\n▞▚▐");
}

#[test]
fn braille_combines_the_bits_of_its_dots() {
    let image = drawn(&["#.", ".#", "#.", ".#"]);
    // bits 0, 4, 2 and 7
    assert_eq!(generate_braille(&image), "⢕");
}

#[test]
fn single_dot_changes_only_its_cell() {
    let blank = generate_blocks(&filled(6, 6, false));
    for y in 0..6u32 {
        for x in 0..6u32 {
            let mut dots = vec![false; 36];
            dots[(y * 6 + x) as usize] = true;
            let image = BinaryImage::new(6, 6, dots).unwrap();
            let text = generate_blocks(&image);
            let glyphs = GlyphSet::blocks();
            let bit = glyphs.template().bit_position(x % 2, y % 2);
            let expected = glyphs.glyph(1 << bit);
            let lines: Vec<Vec<char>> = text.lines().map(|line| line.chars().collect()).collect();
            let blank_lines: Vec<Vec<char>> =
                blank.lines().map(|line| line.chars().collect()).collect();
            for cy in 0..3usize {
                for cx in 0..3usize {
                    if cx == (x / 2) as usize && cy == (y / 2) as usize {
                        assert_eq!(lines[cy][cx], expected);
                        assert_ne!(lines[cy][cx], blank_lines[cy][cx]);
                    } else {
                        assert_eq!(lines[cy][cx], blank_lines[cy][cx]);
                    }
                }
            }
        }
    }
}

#[test]
fn grid_covers_the_image() {
    for (width, height) in [(1u32, 1u32), (2, 2), (3, 3), (5, 7), (8, 8), (9, 1), (1, 9), (16, 12)] {
        let image = filled(width, height, true);
        let blocks = generate_blocks(&image);
        let lines: Vec<&str> = blocks.split('\n').collect();
        assert_eq!(lines.len() as u32, (height + 1) / 2);
        for line in lines {
            assert_eq!(line.chars().count() as u32, (width + 1) / 2);
        }
        let braille = generate_braille(&image);
        let lines: Vec<&str> = braille.split('\n').collect();
        assert_eq!(lines.len() as u32, (height + 3) / 4);
        for line in lines {
            assert_eq!(line.chars().count() as u32, (width + 1) / 2);
        }
    }
}

#[test]
fn text_has_no_line_break_at_its_end() {
    let text = generate_blocks(&filled(4, 6, true));
    assert_eq!(text, "██\n██\n██");
    assert!(!text.ends_with('\n'));
}

#[test]
fn image_without_dots_renders_to_nothing() {
    assert_eq!(generate_blocks(&filled(0, 0, false)), "");
    assert_eq!(generate_blocks(&filled(5, 0, false)), "");
    assert_eq!(generate_blocks(&filled(0, 5, false)), "");
    assert_eq!(generate_braille(&filled(0, 9, false)), "");
}

#[test]
fn rendering_twice_gives_the_same_text() {
    let image = drawn(&["#..#.", ".##..", "#...#"]);
    assert_eq!(generate_blocks(&image), generate_blocks(&image));
    assert_eq!(generate_braille(&image), generate_braille(&image));
    let glyphs = GlyphSet::braille();
    assert_eq!(generate(&image, &glyphs), generate(&image, &glyphs));
    assert_eq!(generate(&image, &glyphs), generate_braille(&image));
}

#[test]
fn generate_reads_any_matching_pair() {
    let template = CellTemplate::new(1, 2, vec![1, 0]).unwrap();
    let glyphs = GlyphSet::new(template, vec![' ', '.', '\'', ':']).unwrap();
    let image = drawn(&["#.#.", "##..", "#..."]);
    assert_eq!(generate(&image, &glyphs), ":.' \n'   ");
}

#[test]
fn generate_with_cells_of_one_dot_copies_the_image() {
    let template = CellTemplate::new(1, 1, vec![0]).unwrap();
    let glyphs = GlyphSet::new(template, vec!['.', '#']).unwrap();
    let rows = ["#..#", ".##.", "#..#"];
    assert_eq!(generate(&drawn(&rows), &glyphs), rows.join("\n"));
}

#[test]
fn cell_index_packs_the_dots_of_one_cell() {
    let image = drawn(&["#.#", ".##", "#.."]);
    let glyphs = GlyphSet::blocks();
    assert_eq!(cell_index(&image, &glyphs, 0, 0), 0b1001);
    assert_eq!(cell_index(&image, &glyphs, 1, 0), 0b0101);
    assert_eq!(cell_index(&image, &glyphs, 0, 1), 0b0001);
    assert_eq!(cell_index(&image, &glyphs, 1, 1), 0);
}

#[test]
fn cell_index_beyond_the_grid_is_zero() {
    let image = filled(4, 4, true);
    let glyphs = GlyphSet::braille();
    assert_eq!(cell_index(&image, &glyphs, 0, 0), 255);
    assert_eq!(cell_index(&image, &glyphs, 2, 0), 0);
    assert_eq!(cell_index(&image, &glyphs, 0, 1), 0);
    assert_eq!(cell_index(&image, &glyphs, u32::MAX, u32::MAX), 0);
}

#[test]
fn render_pairs_and_renders() {
    let image = drawn(&["#.", ".#"]);
    let template = CellTemplate::new(2, 1, vec![0, 1]).unwrap();
    let text = render(&image, template, vec![' ', '<', '>', '=']);
    assert_eq!(text, Ok(String::from("<\n>")));
}

#[test]
fn render_refuses_a_pair_that_does_not_match() {
    let image = drawn(&["#.", ".#"]);
    let template = CellTemplate::new(2, 1, vec![0, 1]).unwrap();
    let text = render(&image, template, vec![' ', '<', '>']);
    assert_eq!(text, Err(ConfigurationMismatch { template_bits: 2, alphabet_len: 3 }));
}
