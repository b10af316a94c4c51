use tiled_to_defold::coords::tile_coords;
use tiled_to_defold::numfmt::{dec_string, fixed5_string, half_string, udec_string};

#[test]
fn transform_is_deterministic() {
    let a = tile_coords(7, -3, 64, 32, 5, -9);
    let b = tile_coords(7, -3, 64, 32, 5, -9);
    assert_eq!(a, b);
}

#[test]
fn transform_example_values() {
    // tile_width 64, tile_height 32, offset (0, 0), tile at (2, 3):
    // x = 32 * (2 - 3) = -32, y = 16 * (2 + 3) = 80,
    // z = -0.1 * (0.0001 * 2 + 0.01 * 3) = -0.00302.
    let p = tile_coords(2, 3, 64, 32, 0, 0);
    assert_eq!(p.x_half, -64);
    assert_eq!(p.y_half, 160);
    assert_eq!(p.z_scaled, -302);
    assert_eq!(half_string(p.x_half), "-32");
    assert_eq!(half_string(p.y_half), "80");
    assert_eq!(fixed5_string(p.z_scaled), "-0.00302");
}

#[test]
fn transform_applies_layer_offset() {
    let p = tile_coords(2, 3, 64, 32, 10, -7);
    assert_eq!(half_string(p.x_half), "-22");
    assert_eq!(half_string(p.y_half), "73");
}

#[test]
fn transform_chunk_base_coordinates() {
    // A chunk at base (-16, 0) whose local cell (0, 0) is occupied resolves
    // to tile coordinates (-16, 0) and runs through the same transform.
    let p = tile_coords(-16, 0, 64, 32, 0, 0);
    assert_eq!(half_string(p.x_half), "-512");
    assert_eq!(half_string(p.y_half), "-256");
    assert_eq!(fixed5_string(p.z_scaled), "0.00016");
}

#[test]
fn depth_key_decreases_along_rows() {
    // Lexicographically later cells get strictly smaller depth keys.
    let row0a = tile_coords(0, 0, 64, 32, 0, 0).z_scaled;
    let row0b = tile_coords(1, 0, 64, 32, 0, 0).z_scaled;
    let row1a = tile_coords(0, 1, 64, 32, 0, 0).z_scaled;
    let row1b = tile_coords(5, 1, 64, 32, 0, 0).z_scaled;
    assert!(row0a > row0b);
    assert!(row0b > row1a);
    assert!(row1a > row1b);
}

#[test]
fn half_pixel_rendering() {
    assert_eq!(half_string(0), "0");
    assert_eq!(half_string(1), "0.5");
    assert_eq!(half_string(-1), "-0.5");
    assert_eq!(half_string(-63), "-31.5");
    assert_eq!(half_string(63), "31.5");
    assert_eq!(half_string(-64), "-32");
}

#[test]
fn depth_rendering() {
    assert_eq!(fixed5_string(0), "0");
    assert_eq!(fixed5_string(-100), "-0.001");
    assert_eq!(fixed5_string(-302), "-0.00302");
    assert_eq!(fixed5_string(123456), "1.23456");
    assert_eq!(fixed5_string(250000), "2.5");
    assert_eq!(fixed5_string(-100000), "-1");
}

#[test]
fn decimal_rendering() {
    assert_eq!(udec_string(0), "0");
    assert_eq!(udec_string(907), "907");
    assert_eq!(dec_string(0), "0");
    assert_eq!(dec_string(-7), "-7");
    assert_eq!(dec_string(-120), "-120");
    assert_eq!(dec_string(345), "345");
}
