use dataset_loader::data::get_data;
use dataset_loader::error::LoadError;

#[test]
fn data_of_sound_rows_is_their_numbers() {
    let cells = vec![vec![Some(1), Some(2), Some(3)], vec![Some(4), Some(5), Some(6)]];
    assert_eq!(get_data(&cells, 3), Ok(vec![vec![1, 2, 3], vec![4, 5, 6]]));
}

#[test]
fn data_of_no_rows_is_empty() {
    let cells: Vec<Vec<Option<u32>>> = vec![];
    assert_eq!(get_data(&cells, 3), Ok(vec![]));
}

#[test]
fn data_fails_on_a_field_that_is_not_a_number() {
    let cells = vec![vec![Some(1), Some(2)], vec![Some(3), None], vec![Some(5), Some(6)]];
    assert_eq!(get_data(&cells, 2), Err(LoadError::NotNumeric { row: 1, column: 1 }));
}

#[test]
fn data_reports_the_first_field_that_is_not_a_number() {
    let cells = vec![vec![Some(1), None, None], vec![None, None, None]];
    assert_eq!(get_data(&cells, 3), Err(LoadError::NotNumeric { row: 0, column: 1 }));
}

#[test]
fn data_fails_on_a_short_row() {
    let cells = vec![vec![Some(1), Some(2)], vec![Some(3)]];
    assert_eq!(get_data(&cells, 2), Err(LoadError::Malformed { row: 1 }));
}

#[test]
fn data_fails_on_a_long_row() {
    let cells = vec![vec![Some(1), Some(2), Some(3)], vec![Some(3), Some(4)]];
    assert_eq!(get_data(&cells, 2), Err(LoadError::Malformed { row: 0 }));
}

#[test]
fn data_checks_the_width_of_a_row_before_its_fields() {
    let cells = vec![vec![None, Some(2), Some(3)]];
    assert_eq!(get_data(&cells, 2), Err(LoadError::Malformed { row: 0 }));
}

#[test]
fn data_reports_the_first_row_at_fault() {
    let cells = vec![vec![Some(1), Some(2)], vec![Some(1), None], vec![Some(3)]];
    assert_eq!(get_data(&cells, 2), Err(LoadError::NotNumeric { row: 1, column: 1 }));
    let cells = vec![vec![Some(1), Some(2)], vec![Some(3)], vec![Some(1), None]];
    assert_eq!(get_data(&cells, 2), Err(LoadError::Malformed { row: 1 }));
}
