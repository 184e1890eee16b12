use glyphgrid::binarize::binarize;
use glyphgrid::render::generate_blocks;

#[test]
fn dithering_spreads_the_error_to_the_right() {
    // Plain thresholding would leave every dot off.
    let image = binarize(4, 1, vec![100, 100, 100, 100]).unwrap();
    assert_eq!(image.width(), 4);
    assert_eq!(image.height(), 1);
    let dots: Vec<u8> = (0..4).map(|x| image.pixel(x, 0)).collect();
    assert_eq!(dots, vec![0, 1, 0, 0]);
    assert_eq!(generate_blocks(&image), "▝ ");
}

#[test]
fn dithering_keeps_black_and_white() {
    let image = binarize(2, 2, vec![0, 255, 255, 0]).unwrap();
    assert_eq!(image.pixel(0, 0), 0);
    assert_eq!(image.pixel(1, 0), 1);
    assert_eq!(image.pixel(0, 1), 1);
    assert_eq!(image.pixel(1, 1), 0);
}

#[test]
fn dithering_turns_mid_grey_into_a_mix() {
    let image = binarize(8, 8, vec![128; 64]).unwrap();
    let on: u32 = (0..8).flat_map(|y| (0..8).map(move |x| (x, y))).map(|(x, y)| u32::from(image.pixel(x, y))).sum();
    assert!(on > 16 && on < 48);
}

#[test]
fn binarize_needs_one_sample_for_every_position() {
    assert!(binarize(2, 2, vec![0; 3]).is_none());
    assert!(binarize(2, 2, vec![0; 5]).is_none());
    assert!(binarize(2, 2, vec![0; 4]).is_some());
}

#[test]
fn binarize_needs_two_columns_and_a_row() {
    assert!(binarize(1, 4, vec![0; 4]).is_none());
    assert!(binarize(0, 0, Vec::new()).is_none());
    assert!(binarize(4, 0, Vec::new()).is_none());
    assert!(binarize(2, 1, vec![0; 2]).is_some());
}
