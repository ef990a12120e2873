use csv_manager::csv_data::{CSVData, Column, Row};
use csv_manager::custom_error::CSVError;
use csv_manager::input_handler::{
    confirm_action, delete_cell_in_data, get_pagination_range, get_single_cell,
    get_validated_row_column, handle_input, modify_cell_in_data, paginate_data, parse_usize,
    retrieve_input, str_eq, InputValidator,
};
use csv_manager::menu::MainMenu;

fn grid(cells: &[&[&str]]) -> Vec<Vec<String>> {
    cells
        .iter()
        .map(|row| row.iter().map(|c| c.to_string()).collect())
        .collect()
}

fn table(cells: &[&[&str]]) -> CSVData {
    CSVData::from_rows(grid(cells))
}

fn lines(texts: &[&str]) -> Vec<String> {
    texts.iter().map(|t| t.to_string()).collect()
}

#[test]
fn parse_accepts_plain_and_signed_numerals() {
    assert_eq!(parse_usize("0"), Some(0));
    assert_eq!(parse_usize("123"), Some(123));
    assert_eq!(parse_usize("+7"), Some(7));
}

#[test]
fn parse_rejects_everything_else() {
    assert_eq!(parse_usize(""), None);
    assert_eq!(parse_usize("+"), None);
    assert_eq!(parse_usize("12a"), None);
    assert_eq!(parse_usize("-3"), None);
    assert_eq!(parse_usize("1 2"), None);
    assert_eq!(parse_usize("99999999999999999999999999999999999999"), None);
}

#[test]
fn validator_accepts_exactly_its_range() {
    let rows = Row(7);
    for i in 1..=7 {
        assert!(rows.validate(i).is_ok());
    }
    assert!(matches!(rows.validate(0), Err(CSVError::ValidationError(_))));
    assert!(matches!(rows.validate(8), Err(CSVError::ValidationError(_))));
    let cols = Column(6);
    for i in 1..=6 {
        assert!(cols.validate(i).is_ok());
    }
    assert!(matches!(cols.validate(0), Err(CSVError::ValidationError(_))));
    assert!(matches!(cols.validate(7), Err(CSVError::ValidationError(_))));
}

#[test]
fn retrieve_input_classifies_each_line() {
    let rows = Row(7);
    assert!(matches!(retrieve_input(&rows, "menu"), Err(CSVError::MenuReset)));
    assert!(matches!(retrieve_input(&rows, "abc"), Err(CSVError::InputError(_))));
    assert!(matches!(retrieve_input(&rows, "9"), Err(CSVError::ValidationError(_))));
    assert_eq!(retrieve_input(&rows, "3").unwrap(), 3);
}

#[test]
fn handle_input_retries_until_accepted() {
    let rows = Row(7);
    let script = lines(&["abc", "0", "99", "5", "ignored"]);
    let mut pos = 0;
    assert_eq!(handle_input(&rows, &script, &mut pos).unwrap(), 5);
    assert_eq!(pos, 4);
}

#[test]
fn handle_input_reports_exhausted_input() {
    let rows = Row(7);
    let script = lines(&["abc"]);
    let mut pos = 0;
    assert!(matches!(
        handle_input(&rows, &script, &mut pos),
        Err(CSVError::InputError(_))
    ));
    assert_eq!(pos, 1);
}

#[test]
fn coordinate_pair_is_validated_per_axis() {
    let script = lines(&["8", "2", "9", "3"]);
    let mut pos = 0;
    let pair = get_validated_row_column(&Row(7), &Column(6), &script, &mut pos).unwrap();
    assert_eq!(pair, (2, 3));
    assert_eq!(pos, 4);
}

#[test]
fn single_cell_is_zero_based() {
    let script = lines(&["2", "3"]);
    let mut pos = 0;
    let cell = get_single_cell(&Row(7), &Column(6), &script, &mut pos).unwrap();
    assert_eq!(cell, (1, 2));
}

#[test]
fn range_in_order_is_accepted() {
    let script = lines(&["1", "1", "1", "1"]);
    let mut pos = 0;
    let range = get_pagination_range(&Row(7), &Column(6), &script, &mut pos).unwrap();
    assert_eq!(range, ((0, 0), (0, 0)));
}

#[test]
fn range_out_of_order_is_rejected() {
    let script = lines(&["2", "3", "1", "1"]);
    let mut pos = 0;
    assert!(matches!(
        get_pagination_range(&Row(7), &Column(6), &script, &mut pos),
        Err(CSVError::ValidationError(_))
    ));
}

#[test]
fn range_same_row_needs_ordered_columns() {
    let script = lines(&["1", "4", "1", "2"]);
    let mut pos = 0;
    assert!(matches!(
        get_pagination_range(&Row(7), &Column(6), &script, &mut pos),
        Err(CSVError::ValidationError(_))
    ));
}

#[test]
fn single_cell_window_through_dialog() {
    let t = table(&[&["a", "b"], &["c", "d"]]);
    let script = lines(&["1", "1", "1", "1"]);
    let mut pos = 0;
    let w = paginate_data(&t, &Row(2), &Column(2), &script, &mut pos).unwrap();
    assert_eq!(w, grid(&[&["a"]]));
}

#[test]
fn pagination_dialog_clips_window() {
    let t = table(&[&["a", "b", "c"], &["d", "e", "f"], &["g", "h", "i"]]);
    let script = lines(&["1", "2", "3", "1"]);
    let mut pos = 0;
    let w = paginate_data(&t, &Row(3), &Column(3), &script, &mut pos).unwrap();
    assert_eq!(w, grid(&[&["b", "c"], &["d", "e", "f"], &["g"]]));
}

#[test]
fn delete_then_inspect() {
    let mut t = table(&[&["a", "b"], &["c", "d"]]);
    let script = lines(&["1", "1", "y"]);
    let mut pos = 0;
    delete_cell_in_data(&mut t, &Row(2), &Column(2), &script, &mut pos).unwrap();
    assert_eq!(t.data, grid(&[&["_", "b"], &["c", "d"]]));
}

#[test]
fn modify_then_inspect() {
    let mut t = table(&[&["a", "b"], &["c", "d"]]);
    let script = lines(&["2", "2", "y", "Z"]);
    let mut pos = 0;
    modify_cell_in_data(&mut t, &Row(2), &Column(2), &script, &mut pos).unwrap();
    assert_eq!(t.data, grid(&[&["a", "b"], &["c", "Z"]]));
}

#[test]
fn menu_keyword_aborts_and_leaves_table_unchanged() {
    let mut t = table(&[&["a", "b"], &["c", "d"]]);
    let script = lines(&["menu"]);
    let mut pos = 0;
    assert!(matches!(
        delete_cell_in_data(&mut t, &Row(2), &Column(2), &script, &mut pos),
        Err(CSVError::MenuReset)
    ));
    assert_eq!(t.data, grid(&[&["a", "b"], &["c", "d"]]));
}

#[test]
fn declined_confirmation_aborts_without_writing() {
    let mut t = table(&[&["a", "b"], &["c", "d"]]);
    let script = lines(&["1", "1", "n"]);
    let mut pos = 0;
    assert!(matches!(
        delete_cell_in_data(&mut t, &Row(2), &Column(2), &script, &mut pos),
        Err(CSVError::MenuReset)
    ));
    assert_eq!(t.data, grid(&[&["a", "b"], &["c", "d"]]));
}

#[test]
fn confirmation_takes_either_case_of_y() {
    assert!(confirm_action("y"));
    assert!(confirm_action("Y"));
    assert!(!confirm_action("n"));
    assert!(!confirm_action("yes"));
    assert!(!confirm_action(""));
}

#[test]
fn menu_replies_select_their_commands() {
    assert!(matches!(MainMenu::from_str("1"), Some(MainMenu::DisplayFile)));
    assert!(matches!(MainMenu::from_str("2"), Some(MainMenu::PaginateFile)));
    assert!(matches!(MainMenu::from_str("3"), Some(MainMenu::DeleteField)));
    assert!(matches!(MainMenu::from_str("4"), Some(MainMenu::UpdateField)));
    assert!(matches!(MainMenu::from_str("5"), Some(MainMenu::WriteFile)));
    assert!(matches!(MainMenu::from_str("q"), Some(MainMenu::Quit)));
    assert!(matches!(MainMenu::from_str("quit"), Some(MainMenu::Quit)));
    assert!(MainMenu::from_str("6").is_none());
    assert!(MainMenu::from_str("").is_none());
}

#[test]
fn str_eq_compares_contents() {
    assert!(str_eq("menu", "menu"));
    assert!(!str_eq("menu", "Menu"));
    assert!(!str_eq("", "a"));
}
