use korangar_loaders::archive::{compare_texts, normalize_path, stored_compression, Compression, DirectoryRegistry, Standing};
use korangar_loaders::cart::{can_remove, find_line, remove_from_cart, CartItem};
use korangar_loaders::color::{parse_hex_channel, parse_hex_digit, ColorBytes};
use korangar_loaders::ground::{ground_quads, is_well_formed_grid, picker_tiles, GroundQuad, GroundTile, PickerTile, SurfaceType};

fn tile(top: i32, front: i32, right: i32) -> GroundTile {
    GroundTile { top_surface_index: top, front_surface_index: front, right_surface_index: right }
}

fn quad(x: usize, y: usize, surface_type: SurfaceType, surface_index: usize, neighbor_tile: usize, colors: [usize; 3]) -> GroundQuad {
    GroundQuad {
        x,
        y,
        surface_type,
        surface_index,
        neighbor_tile,
        color_right: colors[0],
        color_top_right: colors[1],
        color_top: colors[2],
    }
}

#[test]
fn ground_faces_of_a_row() {
    let tiles = [tile(0, -1, 1), tile(1, -1, -1)];
    assert!(is_well_formed_grid(2, 1, &tiles, 2));
    assert_eq!(
        ground_quads(2, 1, &tiles, 2),
        vec![
            quad(0, 0, SurfaceType::Right, 1, 1, [1, 1, 1]),
            quad(0, 0, SurfaceType::Top, 0, 0, [1, 0, 0]),
            quad(1, 0, SurfaceType::Top, 1, 1, [1, 1, 1]),
        ]
    );
}

#[test]
fn ground_faces_go_column_by_column() {
    let tiles = [tile(0, 1, -1), tile(1, -1, -1), tile(2, -1, -1), tile(-1, 3, 3)];
    assert!(is_well_formed_grid(2, 2, &tiles, 4));
    assert_eq!(
        ground_quads(2, 2, &tiles, 4),
        vec![
            quad(0, 0, SurfaceType::Front, 1, 2, [1, 1, 2]),
            quad(0, 0, SurfaceType::Top, 0, 0, [1, 0, 2]),
            quad(0, 1, SurfaceType::Top, 2, 2, [2, 2, 2]),
            quad(1, 0, SurfaceType::Top, 1, 1, [2, 1, 1]),
        ]
    );
}

#[test]
fn ground_face_leans_on_a_stored_tile_past_the_grid() {
    let tiles = [tile(-1, 0, -1), tile(0, -1, -1)];
    assert!(is_well_formed_grid(1, 1, &tiles, 1));
    assert_eq!(ground_quads(1, 1, &tiles, 1), vec![quad(0, 0, SurfaceType::Front, 0, 1, [0, 0, 0])]);
}

#[test]
fn empty_ground_has_no_faces() {
    assert!(is_well_formed_grid(0, 0, &[], 0));
    assert_eq!(ground_quads(0, 0, &[], 0), vec![]);
    assert!(is_well_formed_grid(0, 5, &[], 0));
    assert_eq!(ground_quads(0, 5, &[], 0), vec![]);
}

#[test]
fn grid_must_hold_its_tiles_and_surfaces() {
    let tiles = [tile(0, -1, 1), tile(1, -1, -1)];
    assert!(!is_well_formed_grid(2, 2, &tiles, 2));
    assert!(!is_well_formed_grid(2, 1, &tiles, 1));
    assert!(!is_well_formed_grid(usize::MAX, 2, &tiles, 2));
    assert!(!is_well_formed_grid(1, 1, &tiles, 1));
    assert!(is_well_formed_grid(1, 1, &[tile(0, -1, 0), tile(9, 9, 9)], 1));
    assert_eq!(
        ground_quads(1, 1, &[tile(0, -1, 0), tile(9, 9, 9)], 1),
        vec![quad(0, 0, SurfaceType::Right, 0, 1, [0, 0, 0]), quad(0, 0, SurfaceType::Top, 0, 0, [0, 0, 0])]
    );
    assert!(is_well_formed_grid(1, 2, &[tile(-1, -7, -1), tile(-1, -1, -1)], 0));
}

#[test]
fn bright_colours_get_darker_and_dark_ones_lighter() {
    let color = |red, green, blue| ColorBytes { red, green, blue, alpha: 99 };
    assert_eq!(color(200, 200, 200).shade(), color(160, 160, 160));
    assert_eq!(color(10, 10, 10).shade(), color(50, 50, 50));
    assert_eq!(color(250, 0, 0).shade(), color(255, 40, 40));
    assert_eq!(color(255, 255, 20).shade(), color(215, 215, 0));
    assert_eq!(color(128, 127, 127).shade(), color(168, 167, 167));
    assert_eq!(color(128, 128, 127).shade(), color(88, 88, 87));
    assert_eq!(color(216, 215, 0).shade(), color(176, 175, 0));
    assert_eq!(color(0, 0, 0).shade(), color(40, 40, 40));
    assert_eq!(color(255, 255, 255).shade(), color(215, 215, 215));
}

#[test]
fn colour_from_hexadecimal_text() {
    let color = |red, green, blue| Some(ColorBytes { red, green, blue, alpha: 255 });
    assert_eq!(ColorBytes::rgb_hex("ff8000"), color(255, 128, 0));
    assert_eq!(ColorBytes::rgb_hex("FFfFFf"), color(255, 255, 255));
    assert_eq!(ColorBytes::rgb_hex("000000"), color(0, 0, 0));
    assert_eq!(ColorBytes::rgb_hex("0a1B2c"), color(10, 27, 44));
    assert_eq!(ColorBytes::rgb_hex("+f+0+9"), color(15, 0, 9));
    assert_eq!(ColorBytes::rgb_hex("12345"), None);
    assert_eq!(ColorBytes::rgb_hex("1234567"), None);
    assert_eq!(ColorBytes::rgb_hex(""), None);
    assert_eq!(ColorBytes::rgb_hex("gg0000"), None);
    assert_eq!(ColorBytes::rgb_hex("f+0000"), None);
    assert_eq!(ColorBytes::rgb_hex("-f0000"), None);
    assert_eq!(ColorBytes::rgb_hex("ff 000"), None);
    assert_eq!(ColorBytes::rgb_hex("ffééff"), None);
    for text in ["ff8000", "+f+0+9", "0a1B2c"] {
        let channel = |range: std::ops::Range<usize>| u8::from_str_radix(&text[range], 16).unwrap();
        assert_eq!(ColorBytes::rgb_hex(text), color(channel(0..2), channel(2..4), channel(4..6)));
    }
}

#[test]
fn hexadecimal_digits() {
    assert_eq!(parse_hex_digit('0'), Some(0));
    assert_eq!(parse_hex_digit('9'), Some(9));
    assert_eq!(parse_hex_digit('a'), Some(10));
    assert_eq!(parse_hex_digit('F'), Some(15));
    assert_eq!(parse_hex_digit('g'), None);
    assert_eq!(parse_hex_digit('/'), None);
    assert_eq!(parse_hex_digit(':'), None);
    assert_eq!(parse_hex_digit('@'), None);
    assert_eq!(parse_hex_digit('`'), None);
    assert_eq!(parse_hex_channel('f', 'f'), Some(255));
    assert_eq!(parse_hex_channel('1', '0'), Some(16));
    assert_eq!(parse_hex_channel('+', 'a'), Some(10));
    assert_eq!(parse_hex_channel('a', '+'), None);
}

#[test]
fn channel_from_a_number_is_held_in_range() {
    assert_eq!(ColorBytes::channel_from_number(-5), 0);
    assert_eq!(ColorBytes::channel_from_number(0), 0);
    assert_eq!(ColorBytes::channel_from_number(77), 77);
    assert_eq!(ColorBytes::channel_from_number(255), 255);
    assert_eq!(ColorBytes::channel_from_number(256), 255);
    assert_eq!(ColorBytes::channel_from_number(i64::MAX), 255);
    assert_eq!(ColorBytes::channel_from_number(i64::MIN), 0);
}

fn line(item_id: u32, amount: u32) -> CartItem {
    CartItem { item_id, price: item_id * 10, amount }
}

#[test]
fn cart_lines_are_found_by_item() {
    let cart = vec![line(1, 5), line(2, 3), line(1, 9)];
    assert_eq!(find_line(&cart, 1), Some(0));
    assert_eq!(find_line(&cart, 2), Some(1));
    assert_eq!(find_line(&cart, 3), None);
    assert_eq!(find_line(&vec![], 3), None);
}

#[test]
fn cart_amount_bounds_what_can_be_removed() {
    let cart = vec![line(1, 5), line(2, 3), line(1, 9)];
    assert!(can_remove(&cart, 1, 5));
    assert!(can_remove(&cart, 1, 0));
    assert!(!can_remove(&cart, 1, 6));
    assert!(can_remove(&cart, 2, 3));
    assert!(!can_remove(&cart, 2, 4));
    assert!(can_remove(&cart, 7, 1000));
}

#[test]
fn removing_part_of_a_line_keeps_it() {
    let mut cart = vec![line(1, 5), line(2, 3)];
    remove_from_cart(&mut cart, 1, 2);
    assert_eq!(cart, vec![line(1, 3), line(2, 3)]);
    remove_from_cart(&mut cart, 2, 0);
    assert_eq!(cart, vec![line(1, 3), line(2, 3)]);
}

#[test]
fn removing_all_of_an_item_drops_its_lines() {
    let mut cart = vec![line(1, 5), line(2, 3), line(1, 9)];
    remove_from_cart(&mut cart, 1, 5);
    assert_eq!(cart, vec![line(2, 3)]);
    let mut cart = vec![line(1, 5), line(2, 3)];
    remove_from_cart(&mut cart, 2, 100);
    assert_eq!(cart, vec![line(1, 5)]);
}

#[test]
fn backslashes_become_slashes() {
    assert_eq!(normalize_path("data\\texture\\a.bmp"), "data/texture/a.bmp");
    assert_eq!(normalize_path("data/texture\\a.bmp"), "data/texture/a.bmp");
    assert_eq!(normalize_path(""), "");
    assert_eq!(normalize_path("\\"), "/");
    assert_eq!(normalize_path("유저\\인터페이스"), "유저/인터페이스");
}

#[test]
fn packed_textures_are_stored_as_they_are() {
    assert_eq!(stored_compression("data\\texture\\a.dds", Compression::Default), Compression::Off);
    assert_eq!(stored_compression("a.dds", Compression::Off), Compression::Off);
    assert_eq!(stored_compression(".dds", Compression::Default), Compression::Off);
    assert_eq!(stored_compression("a.bmp", Compression::Default), Compression::Default);
    assert_eq!(stored_compression("a.bmp", Compression::Off), Compression::Off);
    assert_eq!(stored_compression("a.DDS", Compression::Default), Compression::Default);
    assert_eq!(stored_compression("dds", Compression::Default), Compression::Default);
    assert_eq!(stored_compression("a.dds.bak", Compression::Default), Compression::Default);
    assert_eq!(stored_compression("", Compression::Default), Compression::Default);
}

#[test]
fn directories_are_held_once() {
    let mut registry = DirectoryRegistry::new();
    assert_eq!(registry.len(), 0);
    assert!(!registry.contains("a"));
    registry.add_directory("a");
    registry.add_directory("b");
    registry.add_directory("a");
    assert_eq!(registry.len(), 2);
    assert!(registry.contains("a"));
    assert!(registry.contains("b"));
    assert!(!registry.contains("c"));
}

#[test]
fn parents_are_added_and_listed_in_byte_order() {
    let mut registry = DirectoryRegistry::new();
    registry.add_parents("b/x/file.txt");
    registry.add_parents("a/y.txt");
    registry.add_parents("b/x/other.txt");
    registry.add_parents("top.txt");
    registry.add_parents("B/z.txt");
    registry.add_parents("é/z.txt");
    assert_eq!(registry.len(), 5);
    assert_eq!(registry.into_sorted(), vec!["B", "a", "b", "b/x", "é"]);
    assert_eq!(DirectoryRegistry::new().into_sorted(), Vec::<String>::new());
}

#[test]
fn tiles_with_a_flag_can_be_pointed_at() {
    let at = |x, y, index| PickerTile { x, y, index };
    assert_eq!(picker_tiles(3, 2, &[1, 0, 4, 0, 9, 0]), vec![at(0, 0, 0), at(2, 0, 2), at(1, 1, 4)]);
    assert_eq!(picker_tiles(2, 1, &[0, 0, 7]), vec![]);
    assert_eq!(picker_tiles(1, 2, &[5, 6, 7]), vec![at(0, 0, 0), at(0, 1, 1)]);
    assert_eq!(picker_tiles(0, 9, &[]), vec![]);
    assert_eq!(picker_tiles(9, 0, &[]), vec![]);
}

#[test]
fn columns_past_sixteen_bits_wrap() {
    let mut flags = vec![0u8; 65538];
    flags[65537] = 1;
    assert_eq!(picker_tiles(65538, 1, &flags), vec![PickerTile { x: 1, y: 0, index: 65537 }]);
}

#[test]
fn texts_stand_in_the_order_of_their_bytes() {
    assert_eq!(compare_texts("a", "b"), Standing::Before);
    assert_eq!(compare_texts("b", "a"), Standing::After);
    assert_eq!(compare_texts("a", "a"), Standing::Same);
    assert_eq!(compare_texts("", ""), Standing::Same);
    assert_eq!(compare_texts("", "a"), Standing::Before);
    assert_eq!(compare_texts("a", ""), Standing::After);
    assert_eq!(compare_texts("a", "a/b"), Standing::Before);
    assert_eq!(compare_texts("a/b", "a0"), Standing::Before);
    assert_eq!(compare_texts("Z", "a"), Standing::Before);
    assert_eq!(compare_texts("z", "é"), Standing::Before);
    assert_eq!(compare_texts("é", "한"), Standing::Before);
    for (left, right) in [("data", "data/texture"), ("b/x", "b"), ("é", "e"), ("same", "same")] {
        let expected = match left.cmp(right) {
            std::cmp::Ordering::Less => Standing::Before,
            std::cmp::Ordering::Equal => Standing::Same,
            std::cmp::Ordering::Greater => Standing::After,
        };
        assert_eq!(compare_texts(left, right), expected);
    }
}

#[test]
fn directories_come_out_as_a_sort_would_give_them() {
    let names = ["data/texture", "data", "b/x", "b", "é", "data/sprite", "B", "data/texture/effect", "a0", "a/b", "a"];
    let mut registry = DirectoryRegistry::new();
    for name in names {
        registry.add_directory(name);
        registry.add_directory(name);
    }
    let mut expected: Vec<String> = names.iter().map(|name| name.to_string()).collect();
    expected.sort();
    assert_eq!(registry.len(), names.len());
    assert_eq!(registry.into_sorted(), expected);
}
