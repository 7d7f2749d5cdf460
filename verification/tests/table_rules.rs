use svarog::engine::dictionary::{TileDictionary, TileDictionaryEntry};
use svarog::engine::numbers::{parse_i32, parse_u32};
use svarog::engine::tables::{field, plans, Field, GridKind, GridRow, InvariantTileset};

fn chars(text: &str) -> Vec<char> {
    text.chars().collect()
}

fn row(fields: &[(&str, &str)]) -> Vec<Field> {
    fields.iter().map(|(header, text)| (header.to_string(), text.to_string())).collect()
}

#[test]
fn numbers_are_read_as_the_standard_library_reads_them() {
    let texts = [
        "", "0", "7", "42", "007", "+5", "-5", "-0", "+0", "+", "-", "--1", "+-1", "-+1", " 1", "1 ",
        "1_000", "12a", "a12", "٣", "2147483647", "2147483648", "-2147483648", "-2147483649",
        "4294967295", "4294967296", "+4294967295", "99999999999999999999999999", "0000000000001",
        "-00000000002147483648", "1.5", "0x10", "１２",
    ];
    for text in texts {
        assert_eq!(parse_i32(&chars(text)), text.parse::<i32>().ok(), "{:?}", text);
        assert_eq!(parse_u32(&chars(text)), text.parse::<u32>().ok(), "{:?}", text);
    }
    for n in [-1000, -1, 0, 1, 999, i32::MAX, i32::MIN] {
        assert_eq!(parse_i32(&chars(&n.to_string())), Some(n));
    }
    assert_eq!(parse_u32(&chars("4294967295")), Some(u32::MAX));
    assert_eq!(parse_u32(&chars("-1")), None);
}

#[test]
fn the_later_of_two_fields_under_one_header_counts() {
    let fields = row(&[("name", "a"), ("kind", "glyph"), ("name", "b")]);
    assert_eq!(field(&fields, "name"), Some("b".to_string()));
    assert_eq!(field(&fields, "kind"), Some("glyph".to_string()));
    assert_eq!(field(&fields, "tileset"), None);
    assert_eq!(field(&row(&[]), "name"), None);
}

#[test]
fn grid_kinds_by_name() {
    assert_eq!(GridKind::from("boolean"), Some(GridKind::Boolean));
    assert_eq!(GridKind::from("entity"), Some(GridKind::Entity));
    assert_eq!(GridKind::from("number"), Some(GridKind::Number));
    assert_eq!(GridKind::from("glyph"), Some(GridKind::Glyph));
    assert_eq!(GridKind::from("Glyph"), None);
    assert_eq!(GridKind::from(""), None);
    assert_eq!(GridKind::default(), GridKind::Boolean);
}

#[test]
fn a_grid_row_needs_name_kind_and_size() {
    let full = row(&[
        ("name", "ground"),
        ("kind", "glyph"),
        ("tileset", "oryx"),
        ("grid size x", "200"),
        ("grid size y", "-3"),
    ]);
    let grid = GridRow::from(&full).unwrap();
    assert_eq!(grid.name, "ground");
    assert_eq!(grid.dimensions, (200, -3));
    assert_eq!(grid.grid_kind, GridKind::Glyph);
    assert_eq!(grid.tileset, Some("oryx".to_string()));

    let bare = row(&[("name", "flags"), ("kind", "boolean"), ("grid size x", "1"), ("grid size y", "2")]);
    let grid = GridRow::from(&bare).unwrap();
    assert_eq!(grid.tileset, None);

    for missing in ["name", "kind", "grid size x", "grid size y"] {
        let short: Vec<Field> = full.iter().filter(|f| f.0 != missing).cloned().collect();
        assert!(GridRow::from(&short).is_none(), "{}", missing);
    }
    let odd = row(&[("name", "g"), ("kind", "sprite"), ("grid size x", "1"), ("grid size y", "2")]);
    assert!(GridRow::from(&odd).is_none());
    let wide = row(&[("name", "g"), ("kind", "glyph"), ("grid size x", "1.5"), ("grid size y", "2")]);
    assert!(GridRow::from(&wide).is_none());
    assert!(GridRow::from(&row(&[])).is_none());
}

#[test]
fn a_tileset_row_needs_name_file_weight_width_and_height() {
    let full = row(&[
        ("name", "oryx"),
        ("dictionary", "oryx.csv"),
        ("file", "oryx_16.png"),
        ("weight", "16"),
        ("width", "16"),
        ("height", "24"),
    ]);
    let tileset = InvariantTileset::from(&full).unwrap();
    assert_eq!(tileset.name, "oryx");
    assert_eq!(tileset.file, "oryx_16.png");
    assert_eq!(tileset.weight, 16);
    assert_eq!(tileset.tile_size, Some((16, 24)));
    assert_eq!(tileset.dictionary, Some("oryx.csv".to_string()));

    for missing in ["name", "file", "weight", "width", "height"] {
        let short: Vec<Field> = full.iter().filter(|f| f.0 != missing).cloned().collect();
        assert!(InvariantTileset::from(&short).is_none(), "{}", missing);
    }
    let sizeless = row(&[("name", "o"), ("file", "f"), ("weight", "1"), ("width", ""), ("height", "24")]);
    let tileset = InvariantTileset::from(&sizeless).unwrap();
    assert_eq!(tileset.tile_size, None);
    assert_eq!(tileset.dictionary, None);
    let weightless = row(&[("name", "o"), ("file", "f"), ("weight", "x"), ("width", "1"), ("height", "2")]);
    assert!(InvariantTileset::from(&weightless).is_none());
}

fn tileset(name: &str, file: &str, weight: i32, size: Option<(i32, i32)>, dictionary: Option<&str>) -> InvariantTileset {
    InvariantTileset {
        name: name.to_string(),
        file: file.to_string(),
        weight,
        tile_size: size,
        dictionary: dictionary.map(str::to_string),
    }
}

#[test]
fn rows_under_one_name_make_one_tileset() {
    let rows = vec![
        tileset("oryx", "oryx_16.png", 16, Some((16, 16)), Some("oryx.csv")),
        tileset("oryx", "oryx_32.png", 32, None, Some("")),
        tileset("font", "font.png", 1, Some((8, 12)), None),
        tileset("font", "bold.png", 2, Some((9, 13)), Some("font.csv")),
        tileset("oryx", "oryx_8.png", 8, None, None),
    ];
    let made = plans(&rows).unwrap();
    assert_eq!(made.len(), 3);
    assert_eq!(made[0].name, "oryx");
    assert_eq!(made[0].variants, vec![(16, "oryx_16.png".to_string()), (32, "oryx_32.png".to_string())]);
    assert_eq!(made[0].tile_size, (16, 16));
    assert_eq!(made[0].dictionary, "oryx.csv");
    assert_eq!(made[1].name, "font");
    assert_eq!(made[1].variants, vec![(1, "font.png".to_string()), (2, "bold.png".to_string())]);
    assert_eq!(made[1].tile_size, (9, 13));
    assert_eq!(made[1].dictionary, "font.csv");
    assert_eq!(made[2].name, "oryx");
    assert_eq!(made[2].variants, vec![(8, "oryx_8.png".to_string())]);
    assert_eq!(made[2].tile_size, (16, 16));
    assert_eq!(made[2].dictionary, "oryx.csv");
    assert_eq!(plans(&vec![]).unwrap().len(), 0);
}

#[test]
fn a_tileset_without_size_or_dictionary_cannot_be_made() {
    let sizeless = vec![tileset("a", "a.png", 1, None, Some("a.csv"))];
    assert!(plans(&sizeless).is_none());
    let wordless = vec![tileset("a", "a.png", 1, Some((1, 1)), Some(""))];
    assert!(plans(&wordless).is_none());
    let mixed = vec![
        tileset("a", "a.png", 1, Some((1, 1)), Some("a.csv")),
        tileset("b", "b.png", 1, Some((1, 1)), None),
    ];
    assert!(plans(&mixed).is_none());
}

fn same(entry: &TileDictionaryEntry, name: &str, x: i32, y: i32, attributes: &[&str]) -> bool {
    entry.name == name
        && entry.x == x
        && entry.y == y
        && entry.attributes == attributes.iter().map(|a| a.to_string()).collect::<Vec<_>>()
}

#[test]
fn a_dictionary_lists_its_tiles_row_after_row() {
    let rows = vec![
        row(&[("name", "wall"), ("x", "3"), ("y", "4"), ("attributes", "solid, stone ,solid")]),
        row(&[("name", "letters"), ("x", "1"), ("y", "2"), ("attributes", "\"ab\"")]),
        row(&[("name", "bare"), ("x", "9"), ("y", "9")]),
        row(&[("name", "far"), ("x", "4294967295"), ("y", "2147483648"), ("attributes", "")]),
    ];
    let dictionary = TileDictionary::from(&rows).unwrap();
    assert_eq!(dictionary.entries.len(), 4);
    assert!(same(&dictionary.entries[0], "wall", 3, 4, &["solid", "stone", "solid"]));
    assert!(same(&dictionary.entries[1], "a", 1, 2, &["a"]));
    assert!(same(&dictionary.entries[2], "b", 2, 2, &["b"]));
    assert!(same(&dictionary.entries[3], "far", -1, i32::MIN, &[""]));
    assert_eq!(dictionary.with_attribute("solid"), vec![0, 0]);
    assert_eq!(dictionary.with_attribute("stone"), vec![0]);
    assert_eq!(dictionary.with_attribute("a"), vec![1]);
    assert_eq!(dictionary.with_attribute("b"), vec![2]);
    assert_eq!(dictionary.with_attribute(""), vec![3]);
    assert_eq!(dictionary.with_attribute("wood"), Vec::<usize>::new());
    assert_eq!(TileDictionary::from(&vec![]).unwrap().entries.len(), 0);
}

#[test]
fn a_dictionary_with_a_broken_row_cannot_be_made() {
    let good = row(&[("name", "wall"), ("x", "3"), ("y", "4"), ("attributes", "solid")]);
    for broken in [
        row(&[]),
        row(&[("x", "3"), ("y", "4"), ("attributes", "solid")]),
        row(&[("name", "wall"), ("y", "4"), ("attributes", "solid")]),
        row(&[("name", "wall"), ("x", "3"), ("attributes", "solid")]),
        row(&[("name", "wall"), ("x", "-3"), ("y", "4")]),
        row(&[("name", "wall"), ("x", "3"), ("y", "four")]),
        row(&[("name", "row"), ("x", "2147483647"), ("y", "0"), ("attributes", "\"ab\"")]),
    ] {
        assert!(TileDictionary::from(&vec![good.clone(), broken.clone()]).is_none());
        assert!(TileDictionary::from(&vec![broken, good.clone()]).is_none());
    }
    let edge = row(&[("name", "row"), ("x", "2147483647"), ("y", "0"), ("attributes", "\"a\"")]);
    assert!(TileDictionary::from(&vec![edge]).is_some());
}
