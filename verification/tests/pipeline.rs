use png_generator::GenError;
use png_generator::Pixel;
use png_generator::api::{generate_all_texture_pngs, generate_scene_png, generate_texture_png};
use png_generator::base64::base64_encode;
use png_generator::color::parse_hex_color;

#[test]
fn test_parse_hex_color() {
    let color = parse_hex_color("#ff0000");
    assert_eq!(color, Pixel { r: 255, g: 0, b: 0, a: 255 });

    let color = parse_hex_color("#00ff00ff");
    assert_eq!(color, Pixel { r: 0, g: 255, b: 0, a: 255 });
}

#[test]
fn test_generate_texture_png() {
    let pixels = r##"[["#ff0000", "#00ff00"], ["#0000ff", "#ffffff"]]"##;
    let png = generate_texture_png(pixels).unwrap();
    assert!(!png.is_empty());
    // PNG magic bytes
    assert_eq!(&png[0..8], &[137, 80, 78, 71, 13, 10, 26, 10]);
}

#[test]
fn test_parse_hex_color_lenient() {
    // A malformed channel resolves to 0 instead of failing.
    assert_eq!(parse_hex_color("#zz0000"), Pixel { r: 0, g: 0, b: 0, a: 255 });
    // A token too short for a channel resolves that channel to 0.
    assert_eq!(parse_hex_color("#ff"), Pixel { r: 255, g: 0, b: 0, a: 255 });
    // The leading '#' is optional and hex digits are case-insensitive.
    assert_eq!(parse_hex_color("FF8040"), Pixel { r: 255, g: 128, b: 64, a: 255 });
    // An alpha channel is read when eight hex characters are present.
    assert_eq!(parse_hex_color("#10203040"), Pixel { r: 16, g: 32, b: 48, a: 64 });
    assert_eq!(parse_hex_color(""), Pixel { r: 0, g: 0, b: 0, a: 255 });
}

#[test]
fn test_texture_round_trip() {
    let pixels = r##"[["#ff0000", "#00ff0080"], ["#0000ff", "#ffffff"]]"##;
    let png = generate_texture_png(pixels).unwrap();
    let img = image::load_from_memory(&png).unwrap().to_rgba8();
    assert_eq!(img.width(), 2);
    assert_eq!(img.height(), 2);
    assert_eq!(img.get_pixel(0, 0).0, [255, 0, 0, 255]);
    assert_eq!(img.get_pixel(1, 0).0, [0, 255, 0, 128]);
    assert_eq!(img.get_pixel(0, 1).0, [0, 0, 255, 255]);
    assert_eq!(img.get_pixel(1, 1).0, [255, 255, 255, 255]);
}

#[test]
fn test_scene_quadrants() {
    let grid = r##"[["a", "b"], ["b", "a"]]"##;
    let textures = r##"{"a": [["#ff0000"]], "b": [["#00ff00"]]}"##;
    let png = generate_scene_png(grid, textures, 16).unwrap();
    let img = image::load_from_memory(&png).unwrap().to_rgba8();
    assert_eq!(img.width(), 32);
    assert_eq!(img.height(), 32);
    // Each 16x16 quadrant is the nearest-neighbor scaling of its 1x1 texture.
    for y in 0..32 {
        for x in 0..32 {
            let expected = if (x < 16) == (y < 16) {
                [255, 0, 0, 255]
            } else {
                [0, 255, 0, 255]
            };
            assert_eq!(img.get_pixel(x, y).0, expected);
        }
    }
}

#[test]
fn test_scene_nearest_neighbor_scaling() {
    let grid = r##"[["c"]]"##;
    let textures = r##"{"c": [["#ff0000", "#0000ff"]]}"##;
    let png = generate_scene_png(grid, textures, 4).unwrap();
    let img = image::load_from_memory(&png).unwrap().to_rgba8();
    assert_eq!(img.width(), 4);
    assert_eq!(img.height(), 4);
    for y in 0..4 {
        for x in 0..4 {
            // src_x = min(x * 2 / 4, 1): the left half samples column 0.
            let expected = if x < 2 { [255, 0, 0, 255] } else { [0, 0, 255, 255] };
            assert_eq!(img.get_pixel(x, y).0, expected);
        }
    }
}

#[test]
fn test_unknown_tile_stays_default() {
    let grid = r##"[["missing", "a"]]"##;
    let textures = r##"{"a": [["#ff0000"]]}"##;
    let png = generate_scene_png(grid, textures, 2).unwrap();
    let img = image::load_from_memory(&png).unwrap().to_rgba8();
    assert_eq!(img.width(), 4);
    assert_eq!(img.height(), 2);
    for y in 0..2 {
        for x in 0..2 {
            assert_eq!(img.get_pixel(x, y).0, [0, 0, 0, 0]);
            assert_eq!(img.get_pixel(x + 2, y).0, [255, 0, 0, 255]);
        }
    }
}

#[test]
fn test_zero_dimension_texture_stays_default() {
    let grid = r##"[["z", "a"]]"##;
    let textures = r##"{"z": [], "a": [["#00ff00"]]}"##;
    let png = generate_scene_png(grid, textures, 2).unwrap();
    let img = image::load_from_memory(&png).unwrap().to_rgba8();
    assert_eq!(img.width(), 4);
    assert_eq!(img.height(), 2);
    for y in 0..2 {
        for x in 0..2 {
            assert_eq!(img.get_pixel(x, y).0, [0, 0, 0, 0]);
            assert_eq!(img.get_pixel(x + 2, y).0, [0, 255, 0, 255]);
        }
    }
}

#[test]
fn test_base64_vectors() {
    assert_eq!(base64_encode(&vec![0, 0, 0]), "AAAA");
    assert_eq!(base64_encode(&vec![0]), "AA==");
    assert_eq!(base64_encode(&vec![]), "");
    assert_eq!(base64_encode(&vec![77, 97, 110]), "TWFu");
    assert_eq!(base64_encode(&vec![77, 97]), "TWE=");
    assert_eq!(base64_encode(&vec![77]), "TQ==");
    assert_eq!(base64_encode(&vec![251, 239, 190]), "++++");
    assert_eq!(base64_encode(&vec![255, 255, 255]), "////");
}

#[test]
fn test_generate_all_texture_pngs() {
    let textures = r##"{"grass": [["#00ff00"]]}"##;
    let out = generate_all_texture_pngs(textures).unwrap();
    let table: std::collections::HashMap<String, String> = serde_json::from_str(&out).unwrap();
    assert_eq!(table.len(), 1);
    let value = table.get("grass").unwrap();
    // Base64 of the eight PNG signature bytes starts every encoded PNG.
    assert!(value.starts_with("iVBORw0KGg"));
}

#[test]
fn test_malformed_inputs_are_rejected() {
    assert_eq!(generate_texture_png("not json"), Err(GenError::MalformedInput));
    assert_eq!(generate_texture_png(r##"[[1, 2]]"##), Err(GenError::MalformedInput));
    assert_eq!(
        generate_scene_png("not json", r##"{"a": [["#ff0000"]]}"##, 16),
        Err(GenError::MalformedInput)
    );
    assert_eq!(
        generate_scene_png(r##"[["a"]]"##, "still not json", 16),
        Err(GenError::MalformedInput)
    );
    assert_eq!(generate_all_texture_pngs("{broken"), Err(GenError::MalformedInput));
}

#[test]
fn test_ragged_short_row_stays_default() {
    // The second row supplies only one token: the missing cell keeps the
    // default fully transparent pixel.
    let pixels = r##"[["#ff0000", "#00ff00"], ["#0000ff"]]"##;
    let png = generate_texture_png(pixels).unwrap();
    let img = image::load_from_memory(&png).unwrap().to_rgba8();
    assert_eq!(img.width(), 2);
    assert_eq!(img.height(), 2);
    assert_eq!(img.get_pixel(0, 1).0, [0, 0, 255, 255]);
    assert_eq!(img.get_pixel(1, 1).0, [0, 0, 0, 0]);
}

#[test]
fn test_ragged_long_row_is_clipped() {
    // The first row fixes the width; a longer later row is clipped to it.
    let pixels = r##"[["#ff0000"], ["#00ff00", "#0000ff"]]"##;
    let png = generate_texture_png(pixels).unwrap();
    let img = image::load_from_memory(&png).unwrap().to_rgba8();
    assert_eq!(img.width(), 1);
    assert_eq!(img.height(), 2);
    assert_eq!(img.get_pixel(0, 0).0, [255, 0, 0, 255]);
    assert_eq!(img.get_pixel(0, 1).0, [0, 255, 0, 255]);
}

#[test]
fn test_duplicate_texture_names_last_wins() {
    let grid = r##"[["a"]]"##;
    let textures = r##"{"a": [["#ff0000"]], "a": [["#00ff00"]]}"##;
    let png = generate_scene_png(grid, textures, 1).unwrap();
    let img = image::load_from_memory(&png).unwrap().to_rgba8();
    assert_eq!(img.get_pixel(0, 0).0, [0, 255, 0, 255]);
}

#[test]
fn test_identical_inputs_identical_bytes() {
    let pixels = r##"[["#ff0000", "#00ff00"], ["#0000ff", "#ffffff"]]"##;
    assert_eq!(generate_texture_png(pixels), generate_texture_png(pixels));
}

#[test]
fn test_texture_key_order_does_not_leak_into_scene() {
    let grid = r##"[["a", "b"]]"##;
    let one = r##"{"a": [["#ff0000"]], "b": [["#00ff00"]]}"##;
    let other = r##"{"b": [["#00ff00"]], "a": [["#ff0000"]]}"##;
    assert_eq!(
        generate_scene_png(grid, one, 4).unwrap(),
        generate_scene_png(grid, other, 4).unwrap()
    );
}

#[test]
fn test_empty_grid_encode_failure() {
    // A zero-by-zero image is refused by the PNG serializer.
    assert_eq!(generate_texture_png("[]"), Err(GenError::EncodeFailure));
}
