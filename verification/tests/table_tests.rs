use csv_manager::csv_data::CSVData;
use csv_manager::custom_error::CSVError;

fn grid(cells: &[&[&str]]) -> Vec<Vec<String>> {
    cells
        .iter()
        .map(|row| row.iter().map(|c| c.to_string()).collect())
        .collect()
}

fn table(cells: &[&[&str]]) -> CSVData {
    CSVData::from_rows(grid(cells))
}

#[test]
fn dimensions_follow_loaded_rows() {
    let t = table(&[&["a", "b", "c"], &["d", "e", "f"]]);
    assert_eq!(t.dimensions(), (2, 3));
    assert_eq!(t.data.len(), 2);
    assert_eq!(t.data[0].len(), 3);
}

#[test]
fn dimensions_of_empty_table() {
    let t = CSVData::from_rows(Vec::new());
    assert_eq!(t.dimensions(), (0, 0));
}

#[test]
fn dimensions_come_from_first_row_only() {
    let t = table(&[&["a", "b"], &["c", "d", "e"]]);
    assert_eq!(t.dimensions(), (2, 2));
}

#[test]
fn full_window_returns_original_rows() {
    let t = table(&[&["a", "b"], &["c", "d"]]);
    let w = t.paginate(0, 0, 1, 1).unwrap();
    assert_eq!(w, grid(&[&["a", "b"], &["c", "d"]]));
}

#[test]
fn single_cell_window_returns_one_cell() {
    let t = table(&[&["a", "b"], &["c", "d"]]);
    let w = t.paginate(0, 0, 0, 0).unwrap();
    assert_eq!(w, grid(&[&["a"]]));
}

#[test]
fn window_clips_first_and_last_row() {
    let t = table(&[&["a", "b", "c"], &["d", "e", "f"], &["g", "h", "i"]]);
    let w = t.paginate(0, 1, 2, 0).unwrap();
    assert_eq!(w, grid(&[&["b", "c"], &["d", "e", "f"], &["g"]]));
}

#[test]
fn window_out_of_range_is_rejected() {
    let t = table(&[&["a", "b"], &["c", "d"]]);
    assert!(matches!(t.paginate(0, 0, 2, 1), Err(CSVError::ValidationError(_))));
    assert!(matches!(t.paginate(0, 0, 1, 2), Err(CSVError::ValidationError(_))));
}

#[test]
fn window_over_short_row_is_rejected() {
    let t = table(&[&["a", "b"], &["c"], &["d", "e"]]);
    assert!(matches!(t.paginate(0, 0, 2, 1), Err(CSVError::ValidationError(_))));
    assert_eq!(t.paginate(0, 0, 1, 0).unwrap(), grid(&[&["a", "b"], &["c"]]));
}

#[test]
fn delete_cell_writes_placeholder() {
    let mut t = table(&[&["a", "b"], &["c", "d"]]);
    t.delete_cell(0, 0).unwrap();
    assert_eq!(t.data, grid(&[&["_", "b"], &["c", "d"]]));
}

#[test]
fn modify_cell_replaces_text() {
    let mut t = table(&[&["a", "b"], &["c", "d"]]);
    t.modify_cell(1, 1, "Z").unwrap();
    assert_eq!(t.data, grid(&[&["a", "b"], &["c", "Z"]]));
}

#[test]
fn writes_out_of_range_fail_and_change_nothing() {
    let mut t = table(&[&["a", "b"], &["c", "d"]]);
    assert!(matches!(t.delete_cell(2, 0), Err(CSVError::ValidationError(_))));
    assert!(matches!(t.modify_cell(0, 2, "x"), Err(CSVError::ValidationError(_))));
    assert_eq!(t.data, grid(&[&["a", "b"], &["c", "d"]]));
}

#[test]
fn display_joins_cells_with_commas() {
    let t = table(&[&["a", "b", "c"], &["", "e", ""]]);
    let lines = t.display_lines();
    assert_eq!(lines, vec!["a,b,c".to_string(), ",e,".to_string()]);
}

#[test]
fn display_is_repeatable() {
    let t = table(&[&["x"]]);
    assert_eq!(t.display_lines(), t.display_lines());
}

#[test]
fn error_messages_name_their_kind() {
    assert_eq!(CSVError::MenuReset.message(), "Menu selected");
    assert_eq!(
        CSVError::InputError("bad".to_string()).message(),
        "Input error: bad"
    );
    assert_eq!(
        CSVError::ValidationError("off".to_string()).message(),
        "Validation error: off"
    );
    assert_eq!(
        CSVError::Other("broken pipe".to_string()).message(),
        "Error: broken pipe"
    );
    assert_eq!(
        CSVError::FileNotFound("data.csv".to_string()).message(),
        "File not found, current directory : data.csv"
    );
}
