use csv_manager::csv_data::CSVData;

fn grid(cells: &[&[&str]]) -> Vec<Vec<String>> {
    cells
        .iter()
        .map(|row| row.iter().map(|c| c.to_string()).collect())
        .collect()
}

fn write_rows(rows: &[Vec<String>]) -> Vec<u8> {
    let mut writer = csv::Writer::from_writer(Vec::new());
    for row in rows {
        writer.write_record(row).unwrap();
    }
    writer.into_inner().unwrap()
}

fn read_rows(bytes: &[u8]) -> Vec<Vec<String>> {
    let mut reader = csv::ReaderBuilder::new()
        .has_headers(false)
        .from_reader(bytes);
    reader
        .records()
        .map(|r| r.unwrap().iter().map(|f| f.to_string()).collect())
        .collect()
}

#[test]
fn rebuilding_from_the_same_rows_gives_an_equal_table() {
    let rows = grid(&[&["a", "b"], &["c", "d"]]);
    let t = CSVData::from_rows(rows.clone());
    let u = CSVData::from_rows(t.data.clone());
    assert_eq!(t.data, u.data);
    assert_eq!(t.dimensions(), u.dimensions());
    assert_eq!(u.data, rows);
}

#[test]
fn saving_and_reloading_preserves_every_cell() {
    let t = CSVData::from_rows(grid(&[
        &["name", "note", "count"],
        &["ada", "says \"hi\"", "3"],
        &["grace, h", "", "12"],
    ]));
    let bytes = write_rows(&t.data);
    let reloaded = CSVData::from_rows(read_rows(&bytes));
    assert_eq!(t.data, reloaded.data);
    assert_eq!(t.dimensions(), reloaded.dimensions());
}

#[test]
fn saving_a_modified_table_persists_the_change() {
    let mut t = CSVData::from_rows(grid(&[&["a", "b"], &["c", "d"]]));
    t.modify_cell(0, 1, "B").unwrap();
    t.delete_cell(1, 0).unwrap();
    let reloaded = CSVData::from_rows(read_rows(&write_rows(&t.data)));
    assert_eq!(reloaded.data, grid(&[&["a", "B"], &["_", "d"]]));
}
