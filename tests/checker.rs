use trace::checker::{tile_at, Tile};

fn cell(c: f64) -> u64 {
    c.abs().round() as u64
}

#[test]
fn tile_of_origin_cell_is_base() {
    assert_eq!(tile_at(0, 0), Tile::Base);
}

#[test]
fn tile_flips_along_each_axis() {
    assert_eq!(tile_at(1, 0), Tile::Second);
    assert_eq!(tile_at(0, 1), Tile::Second);
    assert_eq!(tile_at(1, 1), Tile::Base);
    assert_eq!(tile_at(2, 3), Tile::Second);
    assert_eq!(tile_at(4, 6), Tile::Base);
}

#[test]
fn tile_from_plane_components() {
    // Components near the anchor round to cell (0, 0).
    assert_eq!(tile_at(cell(0.2), cell(0.3)), Tile::Base);
    // Shifting either component by one flips the colour.
    assert_eq!(tile_at(cell(1.2), cell(0.3)), Tile::Second);
    assert_eq!(tile_at(cell(0.2), cell(1.3)), Tile::Second);
    assert_eq!(tile_at(cell(1.2), cell(1.3)), Tile::Base);
}

#[test]
fn tile_at_extreme_cells() {
    assert_eq!(tile_at(u64::MAX, u64::MAX), Tile::Base);
    assert_eq!(tile_at(u64::MAX, 0), Tile::Second);
}
