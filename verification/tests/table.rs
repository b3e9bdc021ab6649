use dataset_loader::error::LoadError;
use dataset_loader::source::check_row;
use dataset_loader::source::get_headers;
use dataset_loader::source::get_rows;
use dataset_loader::source::open_reader;
use dataset_loader::table::read_table;

fn strings(fields: &[&str]) -> Vec<String> {
    fields.iter().map(|field| field.to_string()).collect()
}

#[test]
fn reads_header_and_rows() {
    let table = read_table(b"age,sex,target\n63,1,1\n37,0,0\n").unwrap();
    assert_eq!(table.header(), &strings(&["age", "sex", "target"]));
    assert_eq!(table.rows(), &vec![strings(&["63", "1", "1"]), strings(&["37", "0", "0"])]);
}

#[test]
fn reads_a_last_line_without_line_end() {
    let table = read_table(b"a,b\n1,2\n3,4").unwrap();
    assert_eq!(table.rows(), &vec![strings(&["1", "2"]), strings(&["3", "4"])]);
}

#[test]
fn reads_a_header_alone() {
    let table = read_table(b"a,b,c\n").unwrap();
    assert_eq!(table.header(), &strings(&["a", "b", "c"]));
    assert!(table.rows().is_empty());
}

#[test]
fn reads_nothing_from_no_bytes() {
    let table = read_table(b"").unwrap();
    assert!(table.header().is_empty());
    assert!(table.rows().is_empty());
}

#[test]
fn splits_fields_as_the_reader_does() {
    let table = read_table(b"name,value\n\"a,b\",2\n\"say \"\"hi\"\"\",3\r\n").unwrap();
    assert_eq!(
        table.rows(),
        &vec![strings(&["a,b", "2"]), strings(&["say \"hi\"", "3"])]
    );
}

#[test]
fn keeps_fields_as_they_are_written() {
    let table = read_table(b"a,b\n 1 ,\n").unwrap();
    assert_eq!(table.rows(), &vec![strings(&[" 1 ", ""])]);
}

#[test]
fn fails_on_a_row_shorter_than_the_header() {
    assert_eq!(
        read_table(b"a,b,c\n1,2,3\n4,5\n6,7,8\n").err(),
        Some(LoadError::Malformed { row: 1 })
    );
}

#[test]
fn fails_on_a_row_longer_than_the_header() {
    assert_eq!(read_table(b"a,b\n1,2,3\n").err(), Some(LoadError::Malformed { row: 0 }));
}

#[test]
fn fails_on_a_row_that_is_not_text() {
    assert_eq!(
        read_table(b"a,b\n1,2\n\xff,4\n").err(),
        Some(LoadError::Malformed { row: 1 })
    );
}

#[test]
fn fails_on_a_header_that_is_not_text() {
    assert_eq!(read_table(b"a,\xff\n1,2\n").err(), Some(LoadError::Header));
}

#[test]
fn every_row_is_as_wide_as_the_header() {
    let table = read_table(b"a,b,c,d\n1,2,3,4\n5,6,7,8\n9,10,11,12\n").unwrap();
    assert_eq!(table.rows().len(), 3);
    for row in table.rows() {
        assert_eq!(row.len(), table.header().len());
    }
}

#[test]
fn reading_twice_gives_the_same_table() {
    let text = b"a,b\n1,2\n3,4\n";
    let first = read_table(text).unwrap();
    let second = read_table(text).unwrap();
    assert_eq!(first.header(), second.header());
    assert_eq!(first.rows(), second.rows());
    assert_eq!(read_table(b"a,b\n1\n").err(), read_table(b"a,b\n1\n").err());
}

#[test]
fn headers_come_from_the_first_line() {
    let mut reader = open_reader(b"x,y\n1,2\n");
    assert_eq!(get_headers(&mut reader), Ok(strings(&["x", "y"])));
    assert_eq!(get_headers(&mut reader), Ok(strings(&["x", "y"])));
}

#[test]
fn headers_do_not_take_a_row_away() {
    let mut reader = open_reader(b"x,y\n1,2\n3,4\n");
    assert_eq!(get_headers(&mut reader), Ok(strings(&["x", "y"])));
    assert_eq!(
        get_rows(&mut reader, 2),
        Ok(vec![strings(&["1", "2"]), strings(&["3", "4"])])
    );
    assert_eq!(get_headers(&mut reader), Ok(strings(&["x", "y"])));
}

#[test]
fn rows_leave_the_header_out() {
    let mut reader = open_reader(b"x,y\n1,2\n3,4\n");
    assert_eq!(
        get_rows(&mut reader, 2),
        Ok(vec![strings(&["1", "2"]), strings(&["3", "4"])])
    );
    assert_eq!(get_rows(&mut reader, 2), Ok(vec![]));
}

#[test]
fn rows_are_checked_against_the_width() {
    let mut reader = open_reader(b"x,y\n1,2\n3,4\n");
    assert_eq!(get_rows(&mut reader, 3), Err(LoadError::Malformed { row: 0 }));
}

#[test]
fn rows_stop_at_the_first_the_reader_refuses() {
    let mut reader = open_reader(b"x,y\n1,2\n3\n5,6\n");
    assert_eq!(get_rows(&mut reader, 2), Err(LoadError::Malformed { row: 1 }));
}

#[test]
fn a_row_stands_if_given_and_as_wide_as_the_header() {
    assert_eq!(check_row(Some(strings(&["1", "2"])), 2, 5), Ok(strings(&["1", "2"])));
    assert_eq!(check_row(Some(vec![]), 0, 0), Ok(vec![]));
}

#[test]
fn a_row_of_another_width_is_malformed() {
    assert_eq!(check_row(Some(strings(&["1", "2"])), 3, 5), Err(LoadError::Malformed { row: 5 }));
    assert_eq!(check_row(Some(strings(&["1", "2"])), 1, 0), Err(LoadError::Malformed { row: 0 }));
}

#[test]
fn a_row_that_was_refused_is_malformed() {
    assert_eq!(check_row(None, 2, 7), Err(LoadError::Malformed { row: 7 }));
}

#[test]
fn a_reader_takes_the_first_line_as_the_header_as_it_is_written() {
    let mut reader = open_reader(b" a , b \n1,2\n");
    assert_eq!(get_headers(&mut reader), Ok(strings(&[" a ", " b "])));
    assert_eq!(get_rows(&mut reader, 2), Ok(vec![strings(&["1", "2"])]));
}

#[test]
fn a_reader_yields_the_same_rows_whether_or_not_the_header_was_read() {
    let text = b"x,y\n1,2\n3,4\n5,6\n";
    let mut asked = open_reader(text);
    assert!(get_headers(&mut asked).is_ok());
    let mut not_asked = open_reader(text);
    assert_eq!(get_rows(&mut asked, 2), get_rows(&mut not_asked, 2));
}
