use penguin_dataset::error::DataError;
use penguin_dataset::labels::{encode_label, str_to_num};
use penguin_dataset::table::Column;

fn text(cells: &[Option<&str>]) -> Column<f64> {
    Column::Text(cells.iter().map(|c| c.map(|s| s.to_string())).collect())
}

#[test]
fn known_names_have_their_codes() {
    assert_eq!(encode_label("Adelie"), Ok(1));
    assert_eq!(encode_label("Chinstrap"), Ok(2));
    assert_eq!(encode_label("Gentoo"), Ok(3));
}

#[test]
fn codes_widen_to_the_expected_floats() {
    assert_eq!(encode_label("Adelie").unwrap() as f64, 1.0);
    assert_eq!(encode_label("Gentoo").unwrap() as f64, 3.0);
}

#[test]
fn other_names_are_an_error() {
    assert_eq!(encode_label("Unknown"), Err(DataError::UnrecognizedLabel));
    assert_eq!(encode_label(""), Err(DataError::UnrecognizedLabel));
    assert_eq!(encode_label("adelie"), Err(DataError::UnrecognizedLabel));
    assert_eq!(encode_label("Gentoo "), Err(DataError::UnrecognizedLabel));
}

#[test]
fn encoding_is_the_same_every_time() {
    assert_eq!(encode_label("Chinstrap"), encode_label("Chinstrap"));
    assert_eq!(encode_label("Nobody"), encode_label("Nobody"));
}

#[test]
fn a_column_of_labels_becomes_codes_in_order() {
    let column = text(&[Some("Gentoo"), Some("Adelie"), Some("Adelie"), Some("Chinstrap")]);
    assert_eq!(str_to_num(&column), Ok(vec![3, 1, 1, 2]));
}

#[test]
fn an_empty_column_of_labels_has_no_codes() {
    let column = text(&[]);
    assert_eq!(str_to_num(&column), Ok(vec![]));
}

#[test]
fn an_unknown_label_fails_the_whole_column() {
    let column = text(&[Some("Adelie"), Some("Emperor"), Some("Gentoo")]);
    assert_eq!(str_to_num(&column), Err(DataError::UnrecognizedLabel));
}

#[test]
fn a_missing_label_fails_the_whole_column() {
    let column = text(&[Some("Adelie"), None]);
    assert_eq!(str_to_num(&column), Err(DataError::UnrecognizedLabel));
}

#[test]
fn a_column_of_numbers_is_no_column_of_labels() {
    let column: Column<f64> = Column::Number(vec![Some(1.0), Some(2.0)]);
    assert_eq!(str_to_num(&column), Err(DataError::NotText));
}
