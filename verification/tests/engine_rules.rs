use svarog::engine::glyphs::{Glyph, PreGlyph};
use svarog::engine::grid::{boxed_strokes, cell, rect_cells, slot, sprite_index, tile_origin, GridAlign};
use svarog::engine::text::{chars_of, split_at, string_of, trim};
use svarog::engine::words::{print_labels, token_labels, tokenize, Token};
use svarog::gameplay::random::{between, choice, choice_index, coin, strict_between};

fn chars(text: &str) -> Vec<char> {
    text.chars().collect()
}

fn record(name: &str, x: i32, y: i32, attributes: &str) -> PreGlyph {
    PreGlyph { name: name.to_string(), x, y, attributes: attributes.to_string() }
}

fn glyph(name: &str, x: i32, y: i32, attributes: &[&str]) -> Glyph {
    Glyph {
        name: name.to_string(),
        x,
        y,
        attributes: attributes.iter().map(|a| a.to_string()).collect(),
    }
}

#[test]
fn strings_and_characters_convert_both_ways() {
    assert_eq!(chars_of("a€|"), vec!['a', '€', '|']);
    assert_eq!(chars_of(""), Vec::<char>::new());
    assert_eq!(string_of(&vec!['w', 'a', 'l', 'l']), "wall".to_string());
    assert_eq!(string_of(&vec![]), String::new());
}

#[test]
fn trim_drops_white_space_at_both_ends_only() {
    assert_eq!(trim(&chars("  a b \t\n")), chars("a b"));
    assert_eq!(trim(&chars("ab")), chars("ab"));
    assert_eq!(trim(&chars(" \u{a0} ")), chars(""));
    assert_eq!(trim(&chars("")), chars(""));
    assert_eq!(trim(&chars("\u{2003}x")), chars("x"));
}

#[test]
fn white_space_is_what_the_standard_library_calls_white_space() {
    for code in 0..=0x10ffff_u32 {
        if let Some(c) = char::from_u32(code) {
            assert_eq!(trim(&vec![c]).is_empty(), c.is_whitespace(), "U+{:04X}", code);
        }
    }
}

#[test]
fn trim_agrees_with_the_standard_library() {
    for text in ["", " ", "a", " a", "a ", "\t a b \n", "\u{3000}x\u{85}", "x\u{200b}", " \u{feff} "] {
        assert_eq!(string_of(&trim(&chars(text))), text.trim().to_string());
    }
}

#[test]
fn split_agrees_with_the_standard_library() {
    for text in ["", ";", "a", "a;b", ";a;", "a;;b", ";;;", "solid; stone ;opaque"] {
        let pieces: Vec<String> = split_at(&chars(text), ';').iter().map(string_of).collect();
        let expected: Vec<String> = text.split(';').map(str::to_string).collect();
        assert_eq!(pieces, expected);
    }
}

#[test]
fn split_keeps_empty_pieces() {
    assert_eq!(split_at(&chars("a;b"), ';'), vec![chars("a"), chars("b")]);
    assert_eq!(split_at(&chars(""), ';'), vec![chars("")]);
    assert_eq!(split_at(&chars("a;"), ';'), vec![chars("a"), chars("")]);
    assert_eq!(split_at(&chars(";;"), ';'), vec![chars(""), chars(""), chars("")]);
    assert_eq!(split_at(&chars("abc"), ';'), vec![chars("abc")]);
}

#[test]
fn a_plain_record_is_one_glyph_with_split_attributes() {
    let glyphs = record("wall", 3, 4, "solid; stone ;opaque").expand();
    assert_eq!(glyphs, Some(vec![glyph("wall", 3, 4, &["solid", "stone", "opaque"])]));
    let glyphs = record("floor", 1, 1, "").expand();
    assert_eq!(glyphs, Some(vec![glyph("floor", 1, 1, &[""])]));
    let glyphs = record("edge", i32::MAX, i32::MIN, "a;;b").expand();
    assert_eq!(glyphs, Some(vec![glyph("edge", i32::MAX, i32::MIN, &["a", "", "b"])]));
}

#[test]
fn a_quoted_record_is_a_row_of_letters() {
    let glyphs = record("letters", 5, 2, "\"ab€\"").expand();
    assert_eq!(
        glyphs,
        Some(vec![glyph("a", 5, 2, &["a"]), glyph("b", 6, 2, &["b"]), glyph("|", 7, 2, &["|"])])
    );
    assert_eq!(record("none", 5, 2, "\"\"").expand(), Some(vec![]));
    assert_eq!(record("lone", 5, 2, "\"").expand(), Some(vec![]));
    assert_eq!(record("open", 5, 2, "\"ab").expand(), Some(vec![glyph("a", 5, 2, &["a"])]));
}

#[test]
fn a_row_that_runs_off_the_sheet_has_no_glyphs() {
    assert_eq!(
        record("last", i32::MAX, 0, "\"a\"").expand(),
        Some(vec![glyph("a", i32::MAX, 0, &["a"])])
    );
    assert_eq!(record("over", i32::MAX, 0, "\"ab\"").expand(), None);
    assert_eq!(record("ends", i32::MAX, 0, "\"\"").expand(), Some(vec![]));
}

fn text(s: &str) -> Token {
    Token::Token(chars(s))
}

fn var(s: &str) -> Token {
    Token::Var(chars(s))
}

fn same(tokens: &[Token], expected: &[Token]) -> bool {
    tokens.len() == expected.len()
        && tokens.iter().zip(expected).all(|pair| match pair {
            (Token::Token(a), Token::Token(b)) => a == b,
            (Token::Var(a), Token::Var(b)) => a == b,
            _ => false,
        })
}

#[test]
fn slashes_cut_a_text_into_text_and_names() {
    assert!(same(&tokenize(&chars("C:>/block/ed")), &[text("C:>"), var("block"), text("ed")]));
    assert!(same(&tokenize(&chars("plain")), &[text("plain")]));
    assert!(same(&tokenize(&chars("")), &[]));
    assert!(same(&tokenize(&chars("/door/")), &[var("door")]));
    assert!(same(&tokenize(&chars("/a//b/")), &[var("a"), var("b")]));
}

#[test]
fn two_slashes_are_one_slash_of_text() {
    assert!(same(&tokenize(&chars("a//b")), &[text("a"), text("/"), text("b")]));
    assert!(same(&tokenize(&chars("//")), &[text("/")]));
}

#[test]
fn an_open_name_at_the_end_still_counts() {
    assert!(same(&tokenize(&chars("a/bc")), &[text("a"), var("bc")]));
    assert!(same(&tokenize(&chars("a/")), &[text("a")]));
}

#[test]
fn printing_takes_one_cell_for_each_letter_and_each_name() {
    assert_eq!(
        print_labels(&chars("C:>/block/ed")),
        Some(vec![chars("C"), chars(":"), chars(">"), chars("block"), chars("e"), chars("d")])
    );
    assert_eq!(print_labels(&chars("")), Some(vec![]));
    assert_eq!(print_labels(&chars("/sté/")), Some(vec![chars("sté")]));
    assert_eq!(print_labels(&chars("sté")), None);
}

#[test]
fn a_piece_of_text_takes_a_cell_for_each_letter() {
    assert_eq!(token_labels(&text("ed")), Some(vec![chars("e"), chars("d")]));
    assert_eq!(token_labels(&text("")), Some(vec![]));
    assert_eq!(token_labels(&var("")), Some(vec![chars("")]));
    assert_eq!(token_labels(&var("wall_brick")), Some(vec![chars("wall_brick")]));
    assert_eq!(token_labels(&text("a\u{7f}")), Some(vec![chars("a"), chars("\u{7f}")]));
    assert_eq!(token_labels(&text("a\u{80}")), None);
    assert_eq!(token_labels(&var("a\u{80}")), Some(vec![chars("a\u{80}")]));
}

#[test]
fn cells_are_kept_bottom_row_first() {
    assert_eq!(cell(4, 3, 12, 0, 0), Some(8));
    assert_eq!(cell(4, 3, 12, 3, 0), Some(11));
    assert_eq!(cell(4, 3, 12, 0, 2), Some(0));
    assert_eq!(cell(4, 3, 12, 3, 2), Some(3));
    assert_eq!(cell(4, 3, 12, 0, 3), None);
    assert_eq!(cell(4, 3, 12, 4, 0), None);
    assert_eq!(cell(4, 3, 12, 4, 1), Some(8));
    assert_eq!(cell(4, 3, 12, -1, 2), None);
    assert_eq!(cell(i32::MAX, i32::MIN, 12, i32::MIN, i32::MAX), None);
}

#[test]
fn slots_count_one_right_of_x() {
    assert_eq!(slot(4, 12, -1, 0), Some(0));
    assert_eq!(slot(4, 12, 0, 0), Some(1));
    assert_eq!(slot(4, 12, 2, 2), Some(11));
    assert_eq!(slot(4, 12, 3, 2), None);
    assert_eq!(slot(4, 12, -2, 0), None);
}

#[test]
fn sprites_count_from_one() {
    assert_eq!(sprite_index(1, 1, 16), Some(0));
    assert_eq!(sprite_index(3, 2, 16), Some(18));
    assert_eq!(sprite_index(0, 1, 16), None);
    assert_eq!(sprite_index(1, 0, 16), None);
}

#[test]
fn tiles_lie_side_by_side() {
    assert_eq!(tile_origin(&GridAlign::Unaligned, 2, 3, 8, 16, 1, 1), (24, 64));
    assert_eq!(tile_origin(&GridAlign::TopLeft, 2, 3, 8, 16, 1, 1), (24, 16));
    assert_eq!(tile_origin(&GridAlign::Center, 0, 9, 8, 16, 0, 0), (0, 0));
}

#[test]
fn a_rectangle_is_written_column_after_column() {
    assert_eq!(rect_cells(1, 5, 1, 2), vec![(1, 5), (1, 6), (1, 7), (2, 5), (2, 6), (2, 7)]);
    assert_eq!(rect_cells(1, 5, 0, 0), vec![(1, 5)]);
    assert_eq!(rect_cells(1, 5, -1, 3), vec![]);
    assert_eq!(rect_cells(1, 5, 3, -1), vec![]);
    assert_eq!(rect_cells(i32::MAX, i32::MAX, 0, 0), vec![(i32::MAX, i32::MAX)]);
}

#[test]
fn a_frame_is_filled_then_edged_then_cornered() {
    assert_eq!(
        boxed_strokes(0, 0, 1, 1),
        vec![
            (0, 0, 8),
            (0, 1, 8),
            (1, 0, 8),
            (1, 1, 8),
            (0, 0, 4),
            (0, 1, 5),
            (1, 0, 4),
            (1, 1, 5),
            (0, 0, 6),
            (1, 0, 7),
            (0, 1, 6),
            (1, 1, 7),
            (0, 0, 0),
            (1, 0, 1),
            (0, 1, 2),
            (1, 1, 3),
        ]
    );
    assert_eq!(boxed_strokes(2, 3, -1, -1), vec![(2, 3, 0), (1, 3, 1), (2, 2, 2), (1, 2, 3)]);
}

#[test]
fn a_frame_shows_corners_sides_and_middle() {
    let mut shown = std::collections::HashMap::new();
    for (i, j, name) in boxed_strokes(10, 20, 3, 2) {
        shown.insert((i, j), name);
    }
    let rows: Vec<Vec<usize>> =
        (20..=22).map(|j| (10..=13).map(|i| shown[&(i, j)]).collect()).collect();
    assert_eq!(rows, vec![vec![0, 4, 4, 1], vec![6, 8, 8, 7], vec![2, 5, 5, 3]]);
    assert_eq!(shown.len(), 12);

    let mut thin = std::collections::HashMap::new();
    for (i, j, name) in boxed_strokes(0, 0, 0, 2) {
        thin.insert((i, j), name);
    }
    assert_eq!((thin[&(0, 0)], thin[&(0, 1)], thin[&(0, 2)]), (1, 7, 3));
}

#[test]
fn a_coin_is_heads_from_fifty_up() {
    assert!(!coin(0));
    assert!(!coin(49));
    assert!(coin(50));
    assert!(coin(99));
    assert!(!coin(100));
    assert!(coin(4_294_967_295));
    assert!(!coin(4_294_967_200));
}

#[test]
fn a_draw_is_start_plus_remainder() {
    assert_eq!(between(7, 10, 15), Some(12));
    assert_eq!(between(0, 10, 15), Some(10));
    assert_eq!(between(4, 10, 15), Some(14));
    assert_eq!(strict_between(7, 10, 15), Some(12));
    assert_eq!(between(7, 15, 10), Some(17));
    assert_eq!(between(4_294_967_289, 10, 15), Some(8));
    assert_eq!(between(7, 10, 10), None);
    assert_eq!(between(7, i32::MIN, i32::MAX), None);
    assert_eq!(between(2_147_483_648, 5, 4), None);
    assert_eq!(between(2_147_483_647, 5, 4), Some(5));
    assert_eq!(between(4_294_967_295, i32::MIN, 0), None);
    assert_eq!(between(2_147_483_648, 0, i32::MAX), Some(-1));
}

#[test]
fn a_choice_is_the_remainder_by_the_length() {
    assert_eq!(choice_index(7, 3), Some(1));
    assert_eq!(choice_index(4_294_967_295, 7), Some(3));
    assert_eq!(choice_index(7, 0), None);
    assert_eq!(choice(7, &["dirt", "grass", "rock"]), Some("grass"));
    assert_eq!(choice(9, &["dirt", "grass", "rock"]), Some("dirt"));
    assert_eq!(choice::<i32>(9, &[]), None);
}
