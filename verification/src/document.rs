//! Which documents are read, and which worksheets of a workbook are
//! turned into code.

use crate::error::SheetError;
use crate::text::same_text;
use vstd::prelude::*;

verus! {

/// The kinds of document that are read.
#[derive(Clone, Copy, Debug, PartialEq, Eq, Structural)]
pub enum DocumentKind {
    /// A workbook of worksheets.
    Workbook,
    /// Text with fields between commas.
    Csv,
    /// Text with fields between tabs.
    Tsv,
}

/// The kind of document that a file extension stands for.
pub open spec fn kind_of_extension(extension: Option<Seq<char>>) -> Option<DocumentKind> {
    match extension {
        None => None,
        Some(e) => if e == "xlsx"@ || e == "xlsm"@ || e == "xlsb"@ || e == "xls"@ {
            Some(DocumentKind::Workbook)
        } else if e == "csv"@ {
            Some(DocumentKind::Csv)
        } else if e == "tsv"@ {
            Some(DocumentKind::Tsv)
        } else {
            None
        },
    }
}

/// The characters of a text that may be missing.
pub open spec fn option_str(text: Option<&str>) -> Option<Seq<char>> {
    match text {
        Some(t) => Some(t@),
        None => None,
    }
}

/// The kind of document that a file with the given extension holds.
///
/// Fails with `UnsupportedDocument` where there is no extension or it
/// stands for no kind that is read.
pub fn document_kind(extension: Option<&str>) -> (r: Result<DocumentKind, SheetError>)
    ensures
        match r {
            Ok(kind) => kind_of_extension(option_str(extension)) == Some(kind),
            Err(e) => e == SheetError::UnsupportedDocument && kind_of_extension(
                option_str(extension),
            ) is None,
        },
{
    match extension {
        None => Err(SheetError::UnsupportedDocument),
        Some(e) => {
            if same_text(e, "xlsx") || same_text(e, "xlsm") || same_text(e, "xlsb") || same_text(
                e,
                "xls",
            ) {
                Ok(DocumentKind::Workbook)
            } else if same_text(e, "csv") {
                Ok(DocumentKind::Csv)
            } else if same_text(e, "tsv") {
                Ok(DocumentKind::Tsv)
            } else {
                Err(SheetError::UnsupportedDocument)
            }
        },
    }
}

/// Whether `pattern` matches the whole of `input`: `?` stands for exactly
/// one character, `*` for any number of characters, and every other
/// character for itself.
pub open spec fn wildcard_matches(pattern: Seq<char>, input: Seq<char>) -> bool
    decreases pattern.len(), input.len(),
{
    if pattern.len() == 0 {
        input.len() == 0
    } else if pattern[0] == '*' {
        wildcard_matches(pattern.drop_first(), input) || (input.len() > 0 && wildcard_matches(
            pattern,
            input.drop_first(),
        ))
    } else {
        input.len() > 0 && (pattern[0] == '?' || pattern[0] == input[0]) && wildcard_matches(
            pattern.drop_first(),
            input.drop_first(),
        )
    }
}

/// `wildmatch::WildMatch::new(pattern).matches(input)`. The contract is not
/// proved: it states what the documentation of `wildmatch` says of a
/// pattern with `*` and `?`, matched against the entire input, with no
/// escape characters and with regard to case.
#[verifier::external_body]
fn wild_match(pattern: &str, input: &str) -> (r: bool)
    ensures
        r == wildcard_matches(pattern@, input@),
{
    wildmatch::WildMatch::new(pattern).matches(input)
}

/// Whether one of `patterns` matches `name`.
pub open spec fn any_matches(patterns: Seq<Seq<char>>, name: Seq<char>) -> bool {
    exists|i: int| 0 <= i < patterns.len() && wildcard_matches(#[trigger] patterns[i], name)
}

/// Whether one of `patterns` matches `name`.
pub fn matches_any(patterns: &Vec<String>, name: &str) -> (r: bool)
    ensures
        r == any_matches(patterns.deep_view(), name@),
{
    let ghost all = patterns.deep_view();
    let mut i: usize = 0;
    while i < patterns.len()
        invariant
            i <= patterns.len(),
            all == patterns.deep_view(),
            forall|j: int| 0 <= j < i ==> !wildcard_matches(#[trigger] all[j], name@),
        decreases patterns.len() - i,
    {
        assert(all[i as int] == patterns[i as int]@);
        if wild_match(patterns[i].as_str(), name) {
            return true;
        }
        i += 1;
    }
    false
}

/// Whether the worksheet called `name` is turned into code: no pattern of
/// `ignore_sheet` matches its name, and a pattern of `sheet` does.
pub fn sheet_selected(name: &str, sheet: &Vec<String>, ignore_sheet: &Vec<String>) -> (r: bool)
    ensures
        r == (!any_matches(ignore_sheet.deep_view(), name@) && any_matches(
            sheet.deep_view(),
            name@,
        )),
{
    if matches_any(ignore_sheet, name) {
        false
    } else {
        matches_any(sheet, name)
    }
}

} // verus!
