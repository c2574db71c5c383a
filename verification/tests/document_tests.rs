use sheetgen::document::{document_kind, matches_any, sheet_selected, DocumentKind};
use sheetgen::error::SheetError;

fn patterns(list: &[&str]) -> Vec<String> {
    list.iter().map(|p| p.to_string()).collect()
}

#[test]
fn workbook_extensions() {
    for extension in ["xlsx", "xlsm", "xlsb", "xls"] {
        assert_eq!(document_kind(Some(extension)), Ok(DocumentKind::Workbook));
    }
}

#[test]
fn delimited_text_extensions() {
    assert_eq!(document_kind(Some("csv")), Ok(DocumentKind::Csv));
    assert_eq!(document_kind(Some("tsv")), Ok(DocumentKind::Tsv));
}

#[test]
fn any_other_extension_is_unsupported() {
    for extension in ["", "txt", "CSV", "xlsx ", "ods", "json"] {
        assert_eq!(document_kind(Some(extension)), Err(SheetError::UnsupportedDocument));
    }
    assert_eq!(document_kind(None), Err(SheetError::UnsupportedDocument));
}

#[test]
fn a_star_selects_every_sheet() {
    assert!(sheet_selected("Sheet1", &patterns(&["*"]), &patterns(&[])));
    assert!(sheet_selected("", &patterns(&["*"]), &patterns(&[])));
}

#[test]
fn a_sheet_is_selected_by_a_matching_pattern_only() {
    let sheet = patterns(&["Item*", "Unit?"]);
    assert!(sheet_selected("Items", &sheet, &patterns(&[])));
    assert!(sheet_selected("Item", &sheet, &patterns(&[])));
    assert!(sheet_selected("Units", &sheet, &patterns(&[])));
    assert!(!sheet_selected("Unit", &sheet, &patterns(&[])));
    assert!(!sheet_selected("MyItems", &sheet, &patterns(&[])));
    assert!(!sheet_selected("items", &sheet, &patterns(&[])));
    assert!(!sheet_selected("Items", &patterns(&[]), &patterns(&[])));
}

#[test]
fn an_ignored_sheet_is_not_selected() {
    let sheet = patterns(&["*"]);
    let ignore = patterns(&["_*", "*draft*"]);
    assert!(sheet_selected("Items", &sheet, &ignore));
    assert!(!sheet_selected("_notes", &sheet, &ignore));
    assert!(!sheet_selected("my draft 2", &sheet, &ignore));
}

#[test]
fn a_pattern_matches_the_whole_name() {
    assert!(matches_any(&patterns(&["cat"]), "cat"));
    assert!(matches_any(&patterns(&["*cat*"]), "dog_cat_dog"));
    assert!(matches_any(&patterns(&["c?t"]), "cot"));
    assert!(!matches_any(&patterns(&["dog"]), "cat"));
    assert!(!matches_any(&patterns(&["*d"]), "cat"));
    assert!(!matches_any(&patterns(&["????"]), "cat"));
    assert!(!matches_any(&patterns(&["?"]), "cat"));
    assert!(!matches_any(&patterns(&["cat"]), "a cat"));
    assert!(matches_any(&patterns(&["a*b*c"]), "a-b-b-c"));
    assert!(!matches_any(&patterns(&["a*b*c"]), "a-b-b-"));
    assert!(matches_any(&patterns(&[""]), ""));
    assert!(!matches_any(&patterns(&[""]), "x"));
}

#[test]
fn failures_have_messages() {
    assert_eq!(SheetError::UnsupportedDocument.message(), "unsupported file type");
    assert_eq!(SheetError::NameColumnOutOfRange.message(), "the name column is out of range");
    assert_eq!(SheetError::MalformedHeader.message(), "a column name is a boolean or is empty");
    assert_eq!(SheetError::UnparseableCell.message(), "a cell holds an error");
    assert_eq!(SheetError::MalformedDocument.message(), "the delimited text is malformed");
}
