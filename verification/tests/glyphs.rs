use glyphgrid::glyphs::{CellTemplate, ConfigurationMismatch, GlyphSet, BRAILLE_BASE};

#[test]
fn template_keeps_what_it_was_made_of() {
    let template = CellTemplate::new(2, 4, vec![0, 3, 1, 4, 2, 5, 6, 7]).unwrap();
    assert_eq!(template.cell_width(), 2);
    assert_eq!(template.cell_height(), 4);
    assert_eq!(template.bit_position(0, 0), 0);
    assert_eq!(template.bit_position(1, 0), 3);
    assert_eq!(template.bit_position(0, 1), 1);
    assert_eq!(template.bit_position(1, 1), 4);
    assert_eq!(template.bit_position(0, 3), 6);
    assert_eq!(template.bit_position(1, 3), 7);
}

#[test]
fn template_needs_a_dot() {
    assert!(CellTemplate::new(0, 2, Vec::new()).is_none());
    assert!(CellTemplate::new(2, 0, Vec::new()).is_none());
    assert!(CellTemplate::new(0, 0, Vec::new()).is_none());
}

#[test]
fn template_needs_one_bit_for_every_dot() {
    assert!(CellTemplate::new(2, 2, vec![0, 1, 2]).is_none());
    assert!(CellTemplate::new(2, 2, vec![0, 1, 2, 3, 4]).is_none());
    assert!(CellTemplate::new(2, 2, vec![0, 1, 2, 3]).is_some());
}

#[test]
fn template_needs_its_bits_in_range() {
    assert!(CellTemplate::new(2, 2, vec![0, 1, 2, 4]).is_none());
    assert!(CellTemplate::new(1, 1, vec![1]).is_none());
    assert!(CellTemplate::new(1, 1, vec![0]).is_some());
}

#[test]
fn template_needs_every_bit_once() {
    assert!(CellTemplate::new(2, 2, vec![0, 1, 1, 3]).is_none());
    assert!(CellTemplate::new(2, 2, vec![3, 0, 2, 3]).is_none());
    assert!(CellTemplate::new(2, 2, vec![3, 2, 1, 0]).is_some());
}

#[test]
fn template_with_more_dots_than_a_byte_counts_is_refused() {
    let bits: Vec<u8> = (0..300u32).map(|bit| (bit % 256) as u8).collect();
    assert!(CellTemplate::new(30, 10, bits).is_none());
}

#[test]
fn glyph_set_takes_a_matching_alphabet() {
    let template = CellTemplate::new(1, 2, vec![0, 1]).unwrap();
    let glyphs = GlyphSet::new(template, vec![' ', '\'', '.', ':']).unwrap();
    assert_eq!(glyphs.alphabet().len(), 4);
    assert_eq!(glyphs.glyph(0), ' ');
    assert_eq!(glyphs.glyph(3), ':');
    assert_eq!(glyphs.template().cell_height(), 2);
}

#[test]
fn glyph_set_refuses_an_alphabet_of_another_size() {
    let template = CellTemplate::new(2, 2, vec![0, 1, 2, 3]).unwrap();
    let short = GlyphSet::new(template.clone(), vec!['a'; 15]);
    assert_eq!(short.err(), Some(ConfigurationMismatch { template_bits: 4, alphabet_len: 15 }));
    let long = GlyphSet::new(template.clone(), vec!['a'; 17]);
    assert_eq!(long.err(), Some(ConfigurationMismatch { template_bits: 4, alphabet_len: 17 }));
    let empty = GlyphSet::new(template, Vec::new());
    assert_eq!(empty.err(), Some(ConfigurationMismatch { template_bits: 4, alphabet_len: 0 }));
}

#[test]
fn glyph_set_refuses_a_template_with_too_many_bits() {
    let bits: Vec<u8> = (0..64u8).collect();
    let template = CellTemplate::new(8, 8, bits).unwrap();
    let made = GlyphSet::new(template, vec!['a'; 16]);
    assert_eq!(made.err(), Some(ConfigurationMismatch { template_bits: 64, alphabet_len: 16 }));
}

#[test]
fn blocks_are_the_sixteen_quadrant_glyphs() {
    let glyphs = GlyphSet::blocks();
    let expected = vec![
        ' ', '▘', '▝', '▀', '▖', '▌', '▞', '▛', '▗', '▚', '▐', '▜', '▄', '▙', '▟', '█',
    ];
    assert_eq!(glyphs.alphabet(), &expected);
    assert_eq!(glyphs.template().cell_width(), 2);
    assert_eq!(glyphs.template().cell_height(), 2);
    assert_eq!(glyphs.template().bit_position(0, 0), 0);
    assert_eq!(glyphs.template().bit_position(1, 0), 1);
    assert_eq!(glyphs.template().bit_position(0, 1), 2);
    assert_eq!(glyphs.template().bit_position(1, 1), 3);
}

#[test]
fn braille_is_the_run_of_braille_patterns() {
    let glyphs = GlyphSet::braille();
    assert_eq!(BRAILLE_BASE, 0x2800);
    assert_eq!(glyphs.alphabet().len(), 256);
    for (index, glyph) in glyphs.alphabet().iter().enumerate() {
        assert_eq!(*glyph as u32, 0x2800 + index as u32);
    }
    assert_eq!(glyphs.glyph(0), '⠀');
    assert_eq!(glyphs.glyph(255), '⣿');
}

#[test]
fn braille_dots_own_the_bits_of_the_braille_cell() {
    let glyphs = GlyphSet::braille();
    let template = glyphs.template();
    assert_eq!(template.cell_width(), 2);
    assert_eq!(template.cell_height(), 4);
    let left: Vec<u8> = (0..4).map(|row| template.bit_position(0, row)).collect();
    let right: Vec<u8> = (0..4).map(|row| template.bit_position(1, row)).collect();
    assert_eq!(left, vec![0, 1, 2, 6]);
    assert_eq!(right, vec![3, 4, 5, 7]);
}

#[test]
fn glyph_set_copy_holds_the_same_pair() {
    let glyphs = GlyphSet::blocks();
    let copy = glyphs.clone();
    assert_eq!(copy.alphabet(), glyphs.alphabet());
    assert_eq!(copy.template().cell_width(), 2);
    assert_eq!(copy.template().cell_height(), 2);
    for y in 0..2 {
        for x in 0..2 {
            assert_eq!(copy.template().bit_position(x, y), glyphs.template().bit_position(x, y));
        }
    }
}
