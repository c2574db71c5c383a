//! Delimited text (comma or tab separated) split into a header and records.

use crate::error::SheetError;
use crate::parse::Field;
use vstd::prelude::*;

verus! {

#[verifier::external_type_specification]
#[verifier::external_body]
pub struct ExCsvError(csv::Error);

/// The fields of the first row of `text`, split at `delimiter` by the rules
/// of the `csv` crate; `None` where that crate reports an error.
pub uninterp spec fn delimited_header(delimiter: u8, text: Seq<char>) -> Option<Seq<Seq<char>>>;

/// The fields of the rows of `text` after the first, split at `delimiter` by
/// the rules of the `csv` crate; `None` where that crate reports an error
/// in any of them.
pub uninterp spec fn delimited_records(delimiter: u8, text: Seq<char>) -> Option<
    Seq<Seq<Seq<char>>>,
>;

/// `csv::Reader::headers` on a reader over `text` that splits at
/// `delimiter` and is otherwise configured by default. The contract is not
/// proved: it names what that call returns, and says nothing more of it.
#[verifier::external_body]
fn read_header(delimiter: u8, text: &str) -> (r: Result<Vec<String>, csv::Error>)
    ensures
        r is Ok ==> delimited_header(delimiter, text@) == Some(r.unwrap().deep_view()),
        r is Err ==> delimited_header(delimiter, text@) is None,
{
    let mut reader = csv::ReaderBuilder::new().delimiter(delimiter).from_reader(text.as_bytes());
    let header = reader.headers()?;
    Ok(header.iter().map(|field| field.to_string()).collect())
}

/// `csv::Reader::records` on a reader over `text` that splits at
/// `delimiter` and is otherwise configured by default, so that the first row
/// is no record. The contract is not proved: it names what the records are
/// where every one of them is read without error, and says nothing more.
#[verifier::external_body]
fn read_records(delimiter: u8, text: &str) -> (r: Result<Vec<Vec<String>>, csv::Error>)
    ensures
        r is Ok ==> delimited_records(delimiter, text@) == Some(r.unwrap().deep_view()),
        r is Err ==> delimited_records(delimiter, text@) is None,
{
    let mut reader = csv::ReaderBuilder::new().delimiter(delimiter).from_reader(text.as_bytes());
    let mut rows = Vec::new();
    for record in reader.records() {
        rows.push(record?.iter().map(|field| field.to_string()).collect());
    }
    Ok(rows)
}

/// A delimited document: the names of its columns and its records.
#[derive(Debug)]
pub struct Delimited {
    pub headers: Vec<String>,
    pub records: Vec<Vec<Field>>,
}

/// The mathematical content of a [`Delimited`].
pub struct DelimitedView {
    pub headers: Seq<Seq<char>>,
    pub records: Seq<Seq<crate::parse::FieldView>>,
}

impl View for Delimited {
    type V = DelimitedView;

    open spec fn view(&self) -> DelimitedView {
        DelimitedView { headers: self.headers.deep_view(), records: self.records.deep_view() }
    }
}

impl DelimitedView {
    /// Every record has one field for each column.
    pub open spec fn rectangular(self) -> bool {
        forall|r: int| 0 <= r < self.records.len() ==> (#[trigger] self.records[r]).len() == self.headers.len()
    }
}

/// The byte that separates the fields: a tab or a comma.
pub open spec fn delimiter_of(tabs: bool) -> u8 {
    if tabs {
        9
    } else {
        44
    }
}

/// Raw fields as they come out of the text: none has a floating-point
/// reading yet.
pub open spec fn raw_fields(row: Seq<Seq<char>>) -> Seq<crate::parse::FieldView> {
    Seq::new(row.len(), |c: int| crate::parse::FieldView { text: row[c], float_text: None })
}

/// Raw records as they come out of the text.
pub open spec fn raw_records(rows: Seq<Seq<Seq<char>>>) -> Seq<Seq<crate::parse::FieldView>> {
    Seq::new(rows.len(), |r: int| raw_fields(rows[r]))
}

fn fields_of(row: Vec<String>) -> (r: Vec<Field>)
    ensures
        r.deep_view() == raw_fields(row.deep_view()),
{
    let ghost texts = row.deep_view();
    let mut fields: Vec<Field> = Vec::new();
    let mut c: usize = 0;
    while c < row.len()
        invariant
            c <= row.len(),
            texts == row.deep_view(),
            fields.len() == c,
            fields.deep_view() == raw_fields(texts.take(c as int)),
        decreases row.len() - c,
    {
        let ghost before = fields;
        fields.push(Field::new(row[c].clone()));
        proof {
            let target = raw_fields(texts.take(c + 1));
            assert(texts[c as int] == row[c as int]@);
            assert forall|i: int| 0 <= i < c + 1 implies fields.deep_view()[i] == target[i] by {
                if i < c {
                    assert(fields[i] == before[i]);
                    assert(before.deep_view()[i] == raw_fields(texts.take(c as int))[i]);
                }
            }
            assert(fields.deep_view() =~= target);
        }
        c += 1;
    }
    assert(texts.take(row.len() as int) =~= texts);
    fields
}

/// Splits a delimited text into its header and its records. The fields are
/// separated by tabs where `tabs` is set, by commas where it is not.
///
/// The fields come without a floating-point reading: see [`Field`].
pub fn read_delimited(tabs: bool, text: &str) -> (r: Result<Delimited, SheetError>)
    ensures
        match r {
            Ok(document) => {
                &&& delimited_header(delimiter_of(tabs), text@) == Some(document@.headers)
                &&& delimited_records(delimiter_of(tabs), text@) is Some
                &&& document@.records == raw_records(
                    delimited_records(delimiter_of(tabs), text@).unwrap(),
                )
            },
            Err(e) => {
                &&& e == SheetError::MalformedDocument
                &&& (delimited_header(delimiter_of(tabs), text@) is None || delimited_records(
                    delimiter_of(tabs),
                    text@,
                ) is None)
            },
        },
{
    let delimiter: u8 = if tabs {
        9
    } else {
        44
    };
    let headers = match read_header(delimiter, text) {
        Ok(headers) => headers,
        Err(_) => {
            return Err(SheetError::MalformedDocument);
        },
    };
    let rows = match read_records(delimiter, text) {
        Ok(rows) => rows,
        Err(_) => {
            return Err(SheetError::MalformedDocument);
        },
    };
    let ghost all = rows.deep_view();
    let mut records: Vec<Vec<Field>> = Vec::new();
    let mut r: usize = 0;
    while r < rows.len()
        invariant
            r <= rows.len(),
            all == rows.deep_view(),
            records.len() == r,
            records.deep_view() == raw_records(all.take(r as int)),
        decreases rows.len() - r,
    {
        let ghost before = records;
        let fields = fields_of(rows[r].clone());
        records.push(fields);
        proof {
            let target = raw_records(all.take(r + 1));
            assert(all[r as int] == rows[r as int].deep_view());
            assert forall|i: int| 0 <= i < r + 1 implies records.deep_view()[i] == target[i] by {
                if i < r {
                    assert(records[i] == before[i]);
                    assert(before.deep_view()[i] == raw_records(all.take(r as int))[i]);
                }
            }
            assert(records.deep_view() =~= target);
        }
        r += 1;
    }
    assert(all.take(rows.len() as int) =~= all);
    Ok(Delimited { headers, records })
}

} // verus!
