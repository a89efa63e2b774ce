use ldr2pdf::ldr::{new_color, ColorMap, ColourDef, CURRENT_COLOR};

fn def(code: u32, name: &str, rgb: (u8, u8, u8)) -> ColourDef {
    ColourDef {
        code,
        name: name.to_owned(),
        red: rgb.0,
        green: rgb.1,
        blue: rgb.2,
        alpha: None,
    }
}

#[test]
fn color_resolution_honours_the_sentinel() {
    assert_eq!(new_color(4, CURRENT_COLOR), 4);
    assert_eq!(new_color(4, 7), 7);
    assert_eq!(new_color(CURRENT_COLOR, CURRENT_COLOR), CURRENT_COLOR);
    assert_eq!(new_color(CURRENT_COLOR, 0), 0);
}

#[test]
fn palette_lookup_finds_codes_and_falls_back() {
    let defs = vec![
        Some(def(0, "Black", (5, 19, 29))),
        None,
        Some(def(4, "Red", (201, 26, 9))),
    ];
    let map = ColorMap::build(&defs);
    assert_eq!(map.by_code(4).name, "Red");
    assert_eq!(map.by_code(0).name, "Black");
    // An unknown code falls back to the first definition loaded.
    assert_eq!(map.by_code(999).name, "Black");
}

#[test]
fn later_definition_of_a_code_replaces_the_earlier() {
    let defs = vec![
        Some(def(4, "Red", (201, 26, 9))),
        Some(def(4, "Rust", (180, 40, 20))),
    ];
    let map = ColorMap::build(&defs);
    assert_eq!(map.by_code(4).name, "Rust");
    // The fallback stays the first definition ever loaded.
    assert_eq!(map.by_code(5).name, "Red");
}

#[test]
fn palette_parses_colour_meta_commands() {
    let config = b"0 LDraw configuration\n\
                   0 !COLOUR Black CODE 0 VALUE #05131D EDGE #595959\n\
                   0 !COLOUR Red CODE 4 VALUE #C91A09 EDGE #333333 ALPHA 128\n";
    let map = ColorMap::parse(config).expect("well-formed configuration");
    let black = map.by_code(0);
    assert_eq!(black.name, "Black");
    assert_eq!((black.red, black.green, black.blue), (0x05, 0x13, 0x1D));
    assert_eq!(black.alpha, None);
    let red = map.by_code(4);
    assert_eq!(red.name, "Red");
    assert_eq!((red.red, red.green, red.blue), (0xC9, 0x1A, 0x09));
    assert_eq!(red.alpha, Some(128));
}
