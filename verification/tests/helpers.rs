use ldr2pdf::instruction::helpers::{
    isize_to_string, parse_float, parse_isize, parse_usize, separated, serialize, shorter,
    spaces, split_all, usize_to_string, visit, BarListError, SeparatedError,
};
use ldr2pdf::instruction::page::ResizeBar;

#[test]
fn separated_splits_into_exact_field_count() {
    let got = separated::<4>("1:2.5:3:x", ':').expect("four fields");
    assert_eq!(got, vec!["1", "2.5", "3", "x"]);
}

#[test]
fn separated_keeps_empty_fields() {
    let got = separated::<3>("::", ':').expect("three empty fields");
    assert_eq!(got, vec!["", "", ""]);
}

#[test]
fn separated_rejects_too_few_fields() {
    assert_eq!(separated::<4>("1:2:3", ':'), Err(SeparatedError::NotEnough));
}

#[test]
fn separated_rejects_too_many_fields() {
    assert_eq!(separated::<2>("1 2 3", ' '), Err(SeparatedError::TooMany));
}

#[test]
fn split_all_mirrors_standard_split() {
    assert_eq!(split_all("a::b:", ':'), "a::b:".split(':').collect::<Vec<_>>());
    assert_eq!(split_all("", ':'), vec![""]);
}

#[test]
fn shorter_prefers_first_on_tie() {
    assert_eq!(shorter("ab".to_owned(), "cd".to_owned()), "ab");
    assert_eq!(shorter("abc".to_owned(), "z".to_owned()), "z");
    assert_eq!(shorter("a".to_owned(), "xyz".to_owned()), "a");
}

#[test]
fn spaces_joins_plain_renderings() {
    let vals = vec![1.5f32.to_bits(), (-2.0f32).to_bits(), 0.25f32.to_bits()];
    assert_eq!(spaces(&vals), "1.5 -2 0.25");
}

#[test]
fn spaces_prefers_padded_scientific_when_shorter() {
    // 0.0000001 renders as 1E-7 scientifically; the exponent is padded to
    // two digits, still far shorter than the plain rendering.
    let vals = vec![0.0000001f32.to_bits()];
    assert_eq!(spaces(&vals), "1E-07");
    // A large round value renders shorter scientifically too, with a
    // two-digit exponent left alone.
    let vals = vec![100000000000.0f32.to_bits()];
    assert_eq!(spaces(&vals), "1E11");
}

#[test]
fn spaces_of_nothing_is_empty() {
    assert_eq!(spaces(&Vec::new()), "");
}

#[test]
fn integer_rendering_matches_standard() {
    assert_eq!(usize_to_string(0), "0");
    assert_eq!(usize_to_string(907), "907");
    assert_eq!(isize_to_string(-45), "-45");
    assert_eq!(isize_to_string(7), "7");
    assert_eq!(isize_to_string(isize::MIN), isize::MIN.to_string());
}

#[test]
fn integer_parsing_round_trips() {
    assert_eq!(parse_usize("907"), Some(907));
    assert_eq!(parse_usize("0007"), Some(7));
    assert_eq!(parse_usize(""), None);
    assert_eq!(parse_usize("12x"), None);
    assert_eq!(parse_isize("-45"), Some(-45));
    assert_eq!(parse_isize("45"), Some(45));
    assert_eq!(parse_isize("-"), None);
    assert_eq!(parse_isize("99999999999999999999999999"), None);
}

#[test]
fn float_parsing_matches_standard() {
    assert_eq!(parse_float("1.25"), Some(1.25f32.to_bits()));
    assert_eq!(parse_float("-0.5"), Some((-0.5f32).to_bits()));
    assert_eq!(parse_float("wide"), None);
}

#[test]
fn resize_bars_serialize_as_quadruplets() {
    let bars = vec![
        ResizeBar { vertical: true, ref_index_1: 0, ref_index_2: 1, offset: 0.5f32.to_bits() },
        ResizeBar { vertical: false, ref_index_1: -1, ref_index_2: 2, offset: 0.25f32.to_bits() },
    ];
    assert_eq!(serialize(&bars), "True 0 1 0.5 False -1 2 0.25");
}

#[test]
fn resize_bar_offset_uses_shorter_rendering() {
    // One third has a long plain rendering; the two-digit form wins.
    let bars = vec![ResizeBar {
        vertical: false,
        ref_index_1: 3,
        ref_index_2: 4,
        offset: (1.0f32 / 3.0).to_bits(),
    }];
    assert_eq!(serialize(&bars), "False 3 4 0.33");
}

#[test]
fn resize_bars_parse_from_attribute_value() {
    let got = visit("True 0 1 0.5  False -1 2 0.25").expect("two bars");
    assert_eq!(got.len(), 2);
    assert_eq!(
        got[0],
        ResizeBar { vertical: true, ref_index_1: 0, ref_index_2: 1, offset: 0.5f32.to_bits() }
    );
    assert_eq!(
        got[1],
        ResizeBar { vertical: false, ref_index_1: -1, ref_index_2: 2, offset: 0.25f32.to_bits() }
    );
}

#[test]
fn resize_bars_round_trip() {
    let bars = vec![
        ResizeBar { vertical: true, ref_index_1: 5, ref_index_2: -6, offset: 0.75f32.to_bits() },
        ResizeBar { vertical: false, ref_index_1: 0, ref_index_2: 0, offset: 0.0f32.to_bits() },
    ];
    assert_eq!(visit(&serialize(&bars)).expect("round trip"), bars);
}

#[test]
fn resize_bar_errors_name_the_bad_field() {
    assert_eq!(visit("Perhaps 0 1 0.5"), Err(BarListError::InvalidBool));
    assert_eq!(visit("True 0"), Err(BarListError::MissingField));
    assert_eq!(visit("True x 1 0.5"), Err(BarListError::InvalidIndex));
    assert_eq!(visit("True 0 1 wide"), Err(BarListError::InvalidOffset));
    assert_eq!(visit(""), Ok(Vec::new()));
}
