use falling_sand::display::{
    cell_of_pixel, pixel_of_cell, DISPLAY_HEIGHT, DISPLAY_WIDTH, GRID_HEIGHT, GRID_WIDTH,
    PIXEL_SIZE, TARGET_FPS,
};

#[test]
fn the_grid_fills_the_display() {
    assert_eq!(DISPLAY_WIDTH, 1440);
    assert_eq!(DISPLAY_HEIGHT, 900);
    assert_eq!(PIXEL_SIZE, 10);
    assert_eq!(TARGET_FPS, 60);
    assert_eq!(GRID_WIDTH, 144);
    assert_eq!(GRID_HEIGHT, 90);
}

#[test]
fn a_pixel_belongs_to_the_cell_that_shows_it() {
    assert_eq!(cell_of_pixel(0), 0);
    assert_eq!(cell_of_pixel(4), 0);
    assert_eq!(cell_of_pixel(5), 0);
    assert_eq!(cell_of_pixel(9), 0);
    assert_eq!(cell_of_pixel(10), 1);
    assert_eq!(cell_of_pixel(14), 1);
    assert_eq!(cell_of_pixel(15), 1);
    assert_eq!(cell_of_pixel(19), 1);
    assert_eq!(cell_of_pixel(20), 2);
    assert_eq!(cell_of_pixel(1439), 143);
    assert_eq!(cell_of_pixel(899), 89);
}

#[test]
fn cell_of_pixel_agrees_with_rounding_from_the_centre() {
    for offset in 0..3000usize {
        let rounded = ((offset as f32 - 5.0) / 10.0).round() as usize;
        assert_eq!(cell_of_pixel(offset), rounded, "at offset {}", offset);
    }
}

#[test]
fn a_cell_starts_at_a_multiple_of_the_pixel_size() {
    assert_eq!(pixel_of_cell(0), Some(0));
    assert_eq!(pixel_of_cell(1), Some(10));
    assert_eq!(pixel_of_cell(143), Some(1430));
    assert_eq!(pixel_of_cell(usize::MAX / 10), Some(usize::MAX / 10 * 10));
    assert_eq!(pixel_of_cell(usize::MAX / 10 + 1), None);
    assert_eq!(pixel_of_cell(usize::MAX), None);
}

#[test]
fn every_pixel_of_a_cell_maps_back_to_it() {
    for index in 0..200usize {
        let first = pixel_of_cell(index).unwrap();
        for inset in 0..PIXEL_SIZE {
            assert_eq!(cell_of_pixel(first + inset), index);
        }
    }
}
