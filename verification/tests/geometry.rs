use glyphgrid::geometry::ceil_multiple;

#[test]
fn ceil_multiple_keeps_a_multiple() {
    assert_eq!(ceil_multiple(4, 2), 4);
    assert_eq!(ceil_multiple(8, 4), 8);
    assert_eq!(ceil_multiple(1, 1), 1);
}

#[test]
fn ceil_multiple_rounds_up_to_the_next_multiple() {
    assert_eq!(ceil_multiple(5, 2), 6);
    assert_eq!(ceil_multiple(7, 4), 8);
    assert_eq!(ceil_multiple(1, 4), 4);
    assert_eq!(ceil_multiple(9, 4), 12);
}

#[test]
fn ceil_multiple_of_zero_is_zero() {
    assert_eq!(ceil_multiple(0, 1), 0);
    assert_eq!(ceil_multiple(0, 3), 0);
}

#[test]
fn ceil_multiple_takes_the_widest_image() {
    let widest = u64::from(u32::MAX);
    assert_eq!(ceil_multiple(widest, 1), widest);
    assert_eq!(ceil_multiple(widest, 2), widest + 1);
    assert_eq!(ceil_multiple(widest, widest), widest);
}

#[test]
fn ceil_multiple_gives_the_cell_count() {
    for (n, m, cells) in [(0u64, 2u64, 0u64), (1, 2, 1), (2, 2, 1), (3, 2, 2), (7, 4, 2), (8, 4, 2), (9, 4, 3)] {
        assert_eq!(ceil_multiple(n, m) / m, cells);
    }
}
