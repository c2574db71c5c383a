use sheetgen::delimited::{read_delimited, Delimited};
use sheetgen::error::SheetError;
use sheetgen::parse::Field;
use sheetgen::range::{CellRange, SourceCell};
use sheetgen::sheet::Sheet;
use sheetgen::value::Values;

fn with_float_readings(mut document: Delimited) -> Delimited {
    for record in document.records.iter_mut() {
        for field in record.iter_mut() {
            field.float_text = field.text.parse::<f64>().ok().map(|x| x.to_string());
        }
    }
    document
}

fn sheet_of(text: &str) -> Sheet {
    let document = with_float_readings(read_delimited(false, text).unwrap());
    Sheet::csv("items".to_string(), document).unwrap()
}

fn pair(a: &str, b: &str) -> (String, String) {
    (a.to_string(), b.to_string())
}

fn number(s: &str) -> Values {
    Values::Number(s.to_string())
}

fn text(s: &str) -> Values {
    Values::String(s.to_string())
}

#[test]
fn read_delimited_splits_header_and_records() {
    let document = read_delimited(false, "id,label\n1,x\n2,y\n").unwrap();
    assert_eq!(document.headers, vec!["id".to_string(), "label".to_string()]);
    assert_eq!(document.records.len(), 2);
    assert_eq!(document.records[0][0].text, "1");
    assert_eq!(document.records[0][1].text, "x");
    assert_eq!(document.records[1][0].text, "2");
    assert_eq!(document.records[1][1].text, "y");
    assert_eq!(document.records[1][1].float_text, None);
}

#[test]
fn read_delimited_reads_quoted_fields() {
    let document = read_delimited(false, "a,b\n\"x,1\",\"say \"\"hi\"\"\"\n").unwrap();
    assert_eq!(document.records[0][0].text, "x,1");
    assert_eq!(document.records[0][1].text, "say \"hi\"");
}

#[test]
fn read_delimited_splits_at_tabs_where_asked() {
    let document = read_delimited(true, "id\tlabel\n1\tx,y\n").unwrap();
    assert_eq!(document.headers, vec!["id".to_string(), "label".to_string()]);
    assert_eq!(document.records[0][1].text, "x,y");
    let commas = read_delimited(false, "id\tlabel\n1\tx\n").unwrap();
    assert_eq!(commas.headers, vec!["id\tlabel".to_string()]);
}

#[test]
fn read_delimited_refuses_records_of_another_length() {
    assert_eq!(read_delimited(false, "a,b\n1,2,3\n").err(), Some(SheetError::MalformedDocument));
    assert_eq!(read_delimited(false, "a,b\n1\n").err(), Some(SheetError::MalformedDocument));
}

#[test]
fn read_delimited_of_an_empty_text_has_no_column() {
    let document = read_delimited(false, "").unwrap();
    assert_eq!(document.headers, Vec::<String>::new());
    assert_eq!(document.records.len(), 0);
}

#[test]
fn csv_scenario_infers_each_column_from_all_rows() {
    let sheet = sheet_of("id,label\n1,x\n2,y\n3,x\n");
    assert_eq!(sheet.name(), "items");
    assert_eq!(sheet.types(), &vec![pair("id", "number"), pair("label", "'x' | 'y'")]);
    assert_eq!(
        sheet.sheet(),
        &vec![vec![number("1"), number("2"), number("3")], vec![text("x"), text("y"), text("x")]]
    );
    assert_eq!(sheet.row_count(), 3);
}

#[test]
fn csv_does_not_stop_at_the_first_row() {
    let sheet = sheet_of("n\n1\n2\nthree\n");
    assert_eq!(sheet.types(), &vec![pair("n", "string")]);
    let sheet = sheet_of("n\n1\n\n2\n");
    assert_eq!(sheet.types(), &vec![pair("n", "number")]);
}

#[test]
fn csv_parses_every_kind_of_field() {
    let sheet = sheet_of("i,f,b,e,s\n7,1.50,true,,abc\n-7,2e2,false,,abd\n");
    assert_eq!(
        sheet.sheet(),
        &vec![
            vec![number("7"), number("-7")],
            vec![number("1.5"), number("200")],
            vec![Values::Boolean(true), Values::Boolean(false)],
            vec![Values::Nil, Values::Nil],
            vec![text("abc"), text("abd")],
        ]
    );
    assert_eq!(
        sheet.types(),
        &vec![
            pair("i", "number"),
            pair("f", "number"),
            pair("b", "boolean"),
            pair("e", "nil"),
            pair("s", "string"),
        ]
    );
}

#[test]
fn csv_sheet_is_stored_by_column() {
    let sheet = sheet_of("a,b,c\n1,2,3\n4,5,6\n");
    assert_eq!(sheet.types().len(), sheet.sheet().len());
    assert_eq!(sheet.sheet().len(), 3);
    for column in sheet.sheet() {
        assert_eq!(column.len(), 2);
    }
}

#[test]
fn csv_without_records_has_columns_of_no_rows() {
    let sheet = sheet_of("a,b\n");
    assert_eq!(sheet.types(), &vec![pair("a", "string"), pair("b", "string")]);
    assert_eq!(sheet.sheet(), &vec![Vec::<Values>::new(), Vec::<Values>::new()]);
    assert_eq!(sheet.row_count(), 0);
}

#[test]
fn csv_refuses_a_record_of_another_length() {
    let document = Delimited {
        headers: vec!["a".to_string(), "b".to_string()],
        records: vec![
            vec![Field::new("1".to_string()), Field::new("2".to_string())],
            vec![Field::new("3".to_string())],
        ],
    };
    assert_eq!(Sheet::csv("t".to_string(), document).err(), Some(SheetError::MalformedDocument));
}

fn range(rows: Vec<Vec<SourceCell>>) -> CellRange {
    CellRange::from_rows(rows).unwrap()
}

fn s(text: &str) -> SourceCell {
    SourceCell::String(text.to_string())
}

#[test]
fn cell_range_is_a_rectangle() {
    assert!(CellRange::from_rows(vec![vec![s("a"), s("b")], vec![s("c")]]).is_none());
    let range = range(vec![vec![s("a"), s("b")], vec![s("c"), SourceCell::Empty]]);
    assert_eq!(range.get_size(), (2, 2));
    assert!(matches!(range.get((1, 0)), Some(SourceCell::String(t)) if t == "c"));
    assert!(matches!(range.get((1, 1)), Some(SourceCell::Empty)));
    assert!(range.get((2, 0)).is_none());
    assert!(range.get((0, 2)).is_none());
    let empty = CellRange::from_rows(Vec::new()).unwrap();
    assert_eq!(empty.get_size(), (0, 0));
    assert!(empty.get((0, 0)).is_none());
}

#[test]
fn excel_reads_names_from_the_first_row_and_data_below() {
    let sheet = Sheet::excel(
        "Units".to_string(),
        range(vec![
            vec![s("id"), s("kind"), s("cost"), s("when")],
            vec![SourceCell::Int(1), s("a"), SourceCell::Float("1.5".to_string()), SourceCell::DateTime("45000".to_string())],
            vec![SourceCell::Int(2), s("b"), SourceCell::Empty, SourceCell::DateTimeIso("2024-01-02".to_string())],
            vec![SourceCell::Int(3), s("a"), SourceCell::Int(4), SourceCell::DurationIso("PT1H".to_string())],
        ]),
    )
    .unwrap();
    assert_eq!(sheet.name(), "Units");
    assert_eq!(
        sheet.types(),
        &vec![
            pair("id", "number"),
            pair("kind", "'a' | 'b'"),
            pair("cost", "number | nil"),
            pair("when", "string"),
        ]
    );
    assert_eq!(
        sheet.sheet(),
        &vec![
            vec![number("1"), number("2"), number("3")],
            vec![text("a"), text("b"), text("a")],
            vec![number("1.5"), Values::Nil, number("4")],
            vec![text("45000"), text("2024-01-02"), text("PT1H")],
        ]
    );
}

#[test]
fn excel_names_columns_by_numbers_and_dates_too() {
    let sheet = Sheet::excel(
        "t".to_string(),
        range(vec![
            vec![SourceCell::Int(-3), SourceCell::Float("2.5".to_string()), SourceCell::DateTimeIso("2024-01-02".to_string())],
            vec![SourceCell::Bool(true), SourceCell::Bool(false), SourceCell::Bool(true)],
        ]),
    )
    .unwrap();
    assert_eq!(sheet.types(), &vec![pair("-3", "true"), pair("2.5", "false"), pair("2024-01-02", "true")]);
}

#[test]
fn excel_refuses_a_name_that_is_a_truth_value_or_empty() {
    let boolean = range(vec![vec![s("id"), SourceCell::Bool(true)], vec![SourceCell::Int(1), SourceCell::Int(2)]]);
    assert_eq!(Sheet::excel("t".to_string(), boolean).err(), Some(SheetError::MalformedHeader));
    let empty = range(vec![vec![SourceCell::Empty, s("id")], vec![SourceCell::Int(1), SourceCell::Int(2)]]);
    assert_eq!(Sheet::excel("t".to_string(), empty).err(), Some(SheetError::MalformedHeader));
}

#[test]
fn excel_refuses_a_cell_that_holds_an_error() {
    let data = range(vec![vec![s("id")], vec![SourceCell::Int(1)], vec![SourceCell::Error("#DIV/0!".to_string())]]);
    assert_eq!(Sheet::excel("t".to_string(), data).err(), Some(SheetError::UnparseableCell));
    let name = range(vec![vec![SourceCell::Error("#N/A".to_string())], vec![SourceCell::Int(1)]]);
    assert_eq!(Sheet::excel("t".to_string(), name).err(), Some(SheetError::UnparseableCell));
}

#[test]
fn excel_reports_the_leftmost_fault_of_the_first_row_first() {
    let rows = vec![
        vec![s("id"), SourceCell::Error("#N/A".to_string()), SourceCell::Bool(true)],
        vec![SourceCell::Int(1), SourceCell::Int(2), SourceCell::Int(3)],
    ];
    assert_eq!(Sheet::excel("t".to_string(), range(rows)).err(), Some(SheetError::UnparseableCell));
    let rows = vec![
        vec![s("id"), SourceCell::Empty, SourceCell::Error("#N/A".to_string())],
        vec![SourceCell::Error("#N/A".to_string()), SourceCell::Int(2), SourceCell::Int(3)],
    ];
    assert_eq!(Sheet::excel("t".to_string(), range(rows)).err(), Some(SheetError::MalformedHeader));
}

#[test]
fn excel_of_an_empty_range_is_an_empty_sheet() {
    let sheet = Sheet::excel("t".to_string(), range(Vec::new())).unwrap();
    assert_eq!(sheet.types().len(), 0);
    assert_eq!(sheet.sheet().len(), 0);
    assert_eq!(sheet.row_count(), 0);
}

#[test]
fn excel_with_names_only_has_columns_of_no_rows() {
    let sheet = Sheet::excel("t".to_string(), range(vec![vec![s("a"), s("b")]])).unwrap();
    assert_eq!(sheet.types(), &vec![pair("a", "string"), pair("b", "string")]);
    assert_eq!(sheet.sheet(), &vec![Vec::<Values>::new(), Vec::<Values>::new()]);
}

#[test]
fn excel_sheet_is_stored_by_column() {
    let sheet = Sheet::excel(
        "t".to_string(),
        range(vec![
            vec![s("a"), s("b")],
            vec![SourceCell::Int(1), SourceCell::Int(2)],
            vec![SourceCell::Int(3), SourceCell::Int(4)],
            vec![SourceCell::Int(5), SourceCell::Int(6)],
        ]),
    )
    .unwrap();
    assert_eq!(sheet.types().len(), sheet.sheet().len());
    for column in sheet.sheet() {
        assert_eq!(column.len(), 3);
    }
}

#[test]
fn source_cell_readings() {
    assert_eq!(SourceCell::Int(12).value(), Ok(number("12")));
    assert_eq!(SourceCell::Bool(true).value(), Ok(Values::Boolean(true)));
    assert_eq!(SourceCell::Empty.value(), Ok(Values::Nil));
    assert_eq!(SourceCell::Error("#REF!".to_string()).value(), Err(SheetError::UnparseableCell));
    assert_eq!(SourceCell::Int(12).key(), Ok("12".to_string()));
    assert_eq!(SourceCell::Bool(true).key(), Err(SheetError::MalformedHeader));
    assert_eq!(SourceCell::Empty.key(), Err(SheetError::MalformedHeader));
    assert_eq!(SourceCell::Int(1).hint(), Ok("number".to_string()));
    assert_eq!(SourceCell::Float("1.5".to_string()).hint(), Ok("number".to_string()));
    assert_eq!(s("x").hint(), Ok("string".to_string()));
    assert_eq!(SourceCell::Bool(false).hint(), Ok("boolean".to_string()));
    assert_eq!(SourceCell::Empty.hint(), Ok("nil".to_string()));
    assert_eq!(SourceCell::DateTime("1".to_string()).hint(), Ok("string".to_string()));
    assert_eq!(SourceCell::Error("#REF!".to_string()).hint(), Err(SheetError::UnparseableCell));
}
