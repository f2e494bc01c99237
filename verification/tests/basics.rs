use dwctl::amount::Amount;
use dwctl::grouping::{by_id, group_by_id};
use dwctl::names::{borrowed, copy_list, distinct, join, list_contains, missing_names, same_optional_text, NameIds};
use dwctl::order::{sort, text_at_most};
use dwctl::query::{between_wildcards, flagged, flagged_text, search_pattern, SqlPiece, SqlQuery};
use dwctl::text::{
    chars_of, contains_text, decimal_text, find_from, is_white_space, same_text,
    signed_decimal_text, text_of, trim,
};

fn names(list: &[&str]) -> Vec<String> {
    list.iter().map(|s| s.to_string()).collect()
}

fn amount(mantissa: i128, scale: u32) -> Amount {
    Amount::new(mantissa, scale).unwrap()
}

#[test]
fn amounts_have_at_most_ninety_six_bits_and_twenty_eight_places() {
    assert!(Amount::new(79_228_162_514_264_337_593_543_950_335, 28).is_some());
    assert!(Amount::new(79_228_162_514_264_337_593_543_950_336, 0).is_none());
    assert!(Amount::new(-79_228_162_514_264_337_593_543_950_335, 0).is_some());
    assert!(Amount::new(1, 29).is_none());
    let a = amount(-125, 2);
    assert_eq!((a.mantissa(), a.scale()), (-125, 2));
}

#[test]
fn amounts_compare_by_value() {
    assert!(amount(10, 1).equals(amount(1, 0)));
    assert!(!amount(10, 1).equals(amount(11, 1)));
    assert!(amount(-1, 0).below(amount(0, 5)));
    assert!(amount(99, 2).below(amount(1, 0)));
    assert!(!amount(100, 2).below(amount(1, 0)));
    assert_eq!(amount(5, 0).min(amount(30, 1)).text(), "3.0");
    assert!(amount(1, 9).is_positive());
    assert!(!amount(0, 9).is_positive());
    assert_eq!(amount(5, 1).negated().text(), "-0.5");
    assert_eq!(Amount::zero().text(), "0");
}

#[test]
fn amounts_are_cut_to_whole_numbers() {
    assert_eq!(amount(199, 2).to_i64(), Some(1));
    assert_eq!(amount(-199, 2).to_i64(), Some(-1));
    assert_eq!(amount(i128::from(i64::MAX), 0).to_i64(), Some(i64::MAX));
    assert_eq!(amount(i128::from(i64::MAX) + 1, 0).to_i64(), None);
    assert_eq!(amount(i128::from(i64::MIN), 0).to_i64(), Some(i64::MIN));
}

#[test]
fn amounts_are_written_with_all_their_places() {
    assert_eq!(amount(5, 3).text(), "0.005");
    assert_eq!(amount(12345, 2).text(), "123.45");
    assert_eq!(amount(0, 2).text(), "0.00");
    assert_eq!(amount(-7, 0).text(), "-7");
}

#[test]
fn rows_by_identifier() {
    let map = by_id(vec![(1, 'a'), (2, 'b'), (1, 'c')]);
    assert_eq!(map.len(), 2);
    assert_eq!(map[&1], 'c');
    let groups = group_by_id(vec![(1, 'a'), (2, 'b'), (1, 'c')]);
    assert_eq!(groups[&1], vec!['a', 'c']);
    assert_eq!(groups[&2], vec!['b']);
}

#[test]
fn lists_of_names() {
    assert_eq!(distinct(&names(&["b", "a", "b"])), names(&["b", "a"]));
    assert_eq!(join(&names(&["a", "b", "c"]), ", "), "a, b, c");
    assert_eq!(join(&names(&[]), ","), "");
    assert!(list_contains(&names(&["a"]), "a"));
    assert!(!list_contains(&names(&["a"]), "A"));
    assert_eq!(copy_list(&names(&["x"])), names(&["x"]));
    let mut ids = NameIds::of_entries(vec![("a".to_string(), 1), ("a".to_string(), 2)]);
    assert_eq!(ids.get("a"), Some(2));
    ids.insert("a".to_string(), 3);
    assert_eq!(ids.get("a"), Some(3));
    assert_eq!(missing_names(&names(&["z", "a", "y"]), &ids), names(&["z", "y"]));
    assert!(same_optional_text(&Some("a".to_string()), &Some("a".to_string())));
    assert!(!same_optional_text(&None, &Some("a".to_string())));
    assert_eq!(borrowed(&Some("a".to_string())), Some("a"));
}

#[test]
fn texts_are_sorted_like_strings() {
    let list = names(&["b", "a", "", "ab", "\u{e9}", "Z", "a"]);
    let mut expected = list.clone();
    expected.sort();
    assert_eq!(sort(&list), expected);
    assert!(text_at_most("a", "a"));
    assert!(text_at_most("a", "aa"));
    assert!(!text_at_most("b", "aa"));
    assert!(text_at_most("\u{ffff}", "\u{10000}"));
}

#[test]
fn texts_are_searched_and_cut() {
    assert!(same_text("a", "a") && !same_text("a", "b"));
    assert!(contains_text("a batch", "batch"));
    assert!(contains_text("x", ""));
    assert!(!contains_text("", "x"));
    let chars = chars_of("h\u{e9}llo");
    assert_eq!(find_from(&chars, &chars_of("l"), 0), Some(2));
    assert_eq!(find_from(&chars, &chars_of("l"), 3), Some(3));
    assert_eq!(find_from(&chars, &chars_of("z"), 0), None);
    assert_eq!(text_of(&chars, 1, 3), "\u{e9}l");
    for s in ["", " ", " a b ", "\t\u{2003}x\u{a0}\n", "\u{200b}x"] {
        assert_eq!(trim(s), s.trim());
    }
}

#[test]
fn numbers_are_written_in_decimal() {
    assert_eq!(decimal_text(u128::MAX), u128::MAX.to_string());
    for n in [0, 9, 10, -1, i64::MIN, i64::MAX] {
        assert_eq!(signed_decimal_text(n), n.to_string());
    }
}

#[test]
fn queries_grow_piece_by_piece() {
    let mut query = SqlQuery::new("SELECT");
    query.push(" WHERE id = ");
    query.bind_id(7);
    query.bind_ids(&vec![1, 2]);
    query.bind_text("t");
    query.bind_texts(&names(&["a"]));
    query.bind_bool(true);
    query.bind_int(-1);
    query.add(SqlPiece::Text(" END"));
    assert_eq!(query.pieces.len(), 9);
    assert!(matches!(query.pieces[2], SqlPiece::Id(7)));
    assert_eq!(search_pattern("\u{c4}bC"), "%\u{e4}bc%");
    assert_eq!(between_wildcards("x"), "%x%");
}

#[test]
fn three_states() {
    assert_eq!(flagged::<i32>(None), (false, None));
    assert_eq!(flagged::<i32>(Some(None)), (true, None));
    assert_eq!(flagged(Some(Some(4))), (true, Some(4)));
    assert_eq!(flagged_text(&Some(Some("a".to_string()))), (true, Some("a")));
    assert_eq!(flagged_text(&Some(None)), (true, None));
    assert_eq!(flagged_text(&None), (false, None));
}

#[test]
fn white_space_is_that_of_the_standard_library() {
    for c in '\u{0}'..=char::MAX {
        assert_eq!(is_white_space(c), c.is_whitespace(), "{c:?}");
    }
    assert_eq!(trim("\u{3000}\t a b\u{85}\u{2003}\n"), "a b");
    assert_eq!(trim("\u{200b}"), "\u{200b}");
}
