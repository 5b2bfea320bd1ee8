use easydb::data_source::excel::{
    check_row_widths, determine_data_type, from_file_to_record_batch, get_header_schema,
    project_column, select_sheet, sheet_to_read, Cell, CellKind, ColumnData, ColumnField,
    ColumnType, SheetBatch,
};
use easydb::response::http_error::Exception;

fn words(s: &str) -> Cell {
    Cell { kind: CellKind::String, text: s.to_string(), int_value: None, float_bits: None }
}

fn whole(v: i64) -> Cell {
    Cell {
        kind: CellKind::Int,
        text: v.to_string(),
        int_value: Some(v),
        float_bits: Some((v as f64).to_bits()),
    }
}

fn fraction(v: f64) -> Cell {
    Cell {
        kind: CellKind::Float,
        text: v.to_string(),
        int_value: Some(v as i64),
        float_bits: Some(v.to_bits()),
    }
}

fn date(s: &str) -> Cell {
    Cell { kind: CellKind::DateTime, text: s.to_string(), int_value: None, float_bits: None }
}

fn empty() -> Cell {
    Cell { kind: CellKind::Empty, text: String::new(), int_value: None, float_bits: None }
}

fn field(name: &str, data_type: ColumnType) -> ColumnField {
    ColumnField { name: name.to_string(), data_type, nullable: true }
}

#[test]
fn column_types_follow_the_cell_kinds() {
    assert_eq!(determine_data_type(CellKind::String), ColumnType::Utf8);
    assert_eq!(determine_data_type(CellKind::Int), ColumnType::Int64);
    assert_eq!(determine_data_type(CellKind::Float), ColumnType::Float64);
    assert_eq!(determine_data_type(CellKind::DateTime), ColumnType::Timestamp);
    assert_eq!(determine_data_type(CellKind::Bool), ColumnType::Utf8);
    assert_eq!(determine_data_type(CellKind::DateTimeIso), ColumnType::Utf8);
    assert_eq!(determine_data_type(CellKind::DurationIso), ColumnType::Utf8);
    assert_eq!(determine_data_type(CellKind::Error), ColumnType::Utf8);
    assert_eq!(determine_data_type(CellKind::Empty), ColumnType::Utf8);
}

#[test]
fn header_schema_is_typed_by_the_first_row_of_data() {
    let rows = vec![
        vec![words("name"), words("count"), words("price"), words("at")],
        vec![words("a"), whole(1), fraction(1.5), date("2024-01-02 03:04:05")],
        vec![whole(3), words("x"), words("y"), words("z")],
    ];
    assert_eq!(
        get_header_schema(&rows).unwrap(),
        vec![
            field("name", ColumnType::Utf8),
            field("count", ColumnType::Int64),
            field("price", ColumnType::Float64),
            field("at", ColumnType::Timestamp),
        ]
    );
}

#[test]
fn header_schema_without_data_is_text() {
    let rows = vec![vec![words("a"), words("b")]];
    assert_eq!(
        get_header_schema(&rows).unwrap(),
        vec![field("a", ColumnType::Utf8), field("b", ColumnType::Utf8)]
    );
}

#[test]
fn header_schema_of_a_short_first_row_of_data() {
    let rows = vec![vec![words("a"), words("b")], vec![whole(1)]];
    assert_eq!(
        get_header_schema(&rows).unwrap(),
        vec![field("a", ColumnType::Int64), field("b", ColumnType::Utf8)]
    );
}

#[test]
fn header_schema_needs_a_row() {
    assert_eq!(
        get_header_schema(&vec![]),
        Err(Exception::UnprocessableEntity { message: "Header not found".to_string() })
    );
}

#[test]
fn sheet_is_the_one_asked_for_or_the_first() {
    let sheets = vec!["Sheet1".to_string(), "Sheet2".to_string()];
    assert_eq!(select_sheet(&Some("Sheet2".to_string()), &sheets).unwrap(), "Sheet2");
    assert_eq!(select_sheet(&Some("Other".to_string()), &sheets).unwrap(), "Other");
    assert_eq!(select_sheet(&None, &sheets).unwrap(), "Sheet1");
}

#[test]
fn a_path_without_a_sheet_reads_the_first_sheet() {
    let sheets = vec!["S1".to_string(), "S2".to_string()];
    assert_eq!(sheet_to_read("a.xlsx", &sheets).unwrap(), "S1");
    assert_eq!(sheet_to_read("a.xlsx#S2", &sheets).unwrap(), "S2");
    assert_eq!(sheet_to_read("a.xlsx#", &sheets).unwrap(), "");
    assert_eq!(
        sheet_to_read("a.xlsx", &vec![]),
        Err(Exception::UnprocessableEntity { message: "Sheets not found".to_string() })
    );
}

#[test]
fn the_batch_of_one_sheet_has_its_header_and_its_rows_of_data() {
    let sheet = vec![
        vec![words("name"), words("n")],
        vec![words("a"), whole(1)],
        vec![words("b"), whole(2)],
        vec![words("c"), whole(3)],
    ];
    let batch = from_file_to_record_batch("a.xlsx", &vec![sheet]).unwrap();
    let names: Vec<String> = batch.fields.iter().map(|f| f.name.clone()).collect();
    assert_eq!(names, vec!["name", "n"]);
    assert_eq!(
        batch.columns,
        vec![
            ColumnData::Utf8(vec!["a".to_string(), "b".to_string(), "c".to_string()]),
            ColumnData::Int64(vec![Some(1), Some(2), Some(3)]),
        ]
    );
}

#[test]
fn a_workbook_without_sheets_has_none_to_offer() {
    assert_eq!(
        select_sheet(&None, &vec![]),
        Err(Exception::UnprocessableEntity { message: "Sheets not found".to_string() })
    );
}

#[test]
fn row_widths_are_checked_on_rows_of_data_only() {
    let sheets = vec![vec![vec![words("a")], vec![whole(1), whole(2)], vec![whole(3), whole(4)]]];
    assert!(check_row_widths(&sheets, 2));
    assert!(!check_row_widths(&sheets, 1));
    assert!(check_row_widths(&vec![], 5));
    assert!(check_row_widths(&vec![vec![], vec![vec![words("h")]]], 5));
}

#[test]
fn project_column_reads_cells_under_the_type() {
    let cells = vec![whole(1), fraction(2.5), words("x"), empty()];
    assert_eq!(
        project_column(ColumnType::Utf8, &cells),
        ColumnData::Utf8(vec!["1".to_string(), "2.5".to_string(), "x".to_string(), String::new()])
    );
    assert_eq!(
        project_column(ColumnType::Int64, &cells),
        ColumnData::Int64(vec![Some(1), Some(2), None, None])
    );
    assert_eq!(
        project_column(ColumnType::Float64, &cells),
        ColumnData::Float64(vec![Some(1.0f64.to_bits()), Some(2.5f64.to_bits()), None, None])
    );
}

#[test]
fn timestamps_are_read_from_the_text() {
    let cells = vec![date("1970-01-01 00:00:01"), date("2024-01-02 03:04:05"), words("soon")];
    assert_eq!(
        project_column(ColumnType::Timestamp, &cells),
        ColumnData::Timestamp(vec![Some(1_000_000_000), Some(1_704_164_645_000_000_000), None])
    );
}

#[test]
fn sheets_become_one_table() {
    let sheets = vec![
        vec![vec![words("name"), words("n")], vec![words("a"), whole(1)], vec![words("b"), whole(2)]],
        vec![vec![words("ignored"), words("header")], vec![words("c"), words("three")]],
    ];
    assert_eq!(
        from_file_to_record_batch("data/*.xlsx", &sheets).unwrap(),
        SheetBatch {
            fields: vec![field("name", ColumnType::Utf8), field("n", ColumnType::Int64)],
            columns: vec![
                ColumnData::Utf8(vec!["a".to_string(), "b".to_string(), "c".to_string()]),
                ColumnData::Int64(vec![Some(1), Some(2), None]),
            ],
        }
    );
}

#[test]
fn a_sheet_with_a_header_only_gives_empty_columns() {
    let sheets = vec![vec![vec![words("a"), words("b")]]];
    assert_eq!(
        from_file_to_record_batch("a.xlsx", &sheets).unwrap(),
        SheetBatch {
            fields: vec![field("a", ColumnType::Utf8), field("b", ColumnType::Utf8)],
            columns: vec![ColumnData::Utf8(vec![]), ColumnData::Utf8(vec![])],
        }
    );
}

#[test]
fn no_sheet_means_no_file() {
    assert_eq!(
        from_file_to_record_batch("missing.xlsx", &vec![]),
        Err(Exception::FileNotFound { file_name: "missing.xlsx".to_string() })
    );
}

#[test]
fn the_first_sheet_needs_a_header() {
    assert_eq!(
        from_file_to_record_batch("a.xlsx", &vec![vec![]]),
        Err(Exception::UnprocessableEntity { message: "Header not found".to_string() })
    );
}

#[test]
fn rows_must_be_as_wide_as_the_header() {
    let wide = vec![vec![vec![words("a")], vec![whole(1), whole(2)]]];
    let narrow = vec![vec![vec![words("a"), words("b")], vec![whole(1), whole(2)]], vec![
        vec![words("a")],
        vec![whole(1)],
    ]];
    let expected =
        Err(Exception::UnprocessableEntity { message: "Row width does not match the header".to_string() });
    assert_eq!(from_file_to_record_batch("a.xlsx", &wide), expected);
    assert_eq!(from_file_to_record_batch("a.xlsx", &narrow), expected);
}
