//! The sheet: a named table with its columns, their inferred types and
//! their values, and how it is built from a worksheet or from a delimited
//! document.

use crate::delimited::{Delimited, DelimitedView};
use crate::error::SheetError;
use crate::infer::{infer, inferred_type};
use crate::parse::{lemma_parsed_value_wf, FieldView};
use crate::range::{lemma_cell_value_wf, Cell, CellRange};
use crate::value::{Value, Values};
use vstd::prelude::*;

verus! {

/// A named table, stored by column: `types[c]` holds the name and the
/// type expression of column `c`, `sheet[c]` its values, one for each row.
///
/// A sheet is built once, from a worksheet or from a delimited document,
/// and only read after that. It holds one vector of values for each column,
/// and all of them have one length.
#[derive(Debug)]
pub struct Sheet {
    name: String,
    types: Vec<(String, String)>,
    sheet: Vec<Vec<Values>>,
}

/// The mathematical content of a [`Sheet`].
pub struct SheetView {
    pub name: Seq<char>,
    pub types: Seq<(Seq<char>, Seq<char>)>,
    pub sheet: Seq<Seq<Value>>,
}

impl View for Sheet {
    type V = SheetView;

    closed spec fn view(&self) -> SheetView {
        SheetView {
            name: self.name@,
            types: self.types.deep_view(),
            sheet: self.sheet.deep_view(),
        }
    }
}

impl SheetView {
    /// The number of columns.
    pub open spec fn columns(self) -> nat {
        self.types.len()
    }

    /// The number of rows: the length of the first column.
    pub open spec fn rows(self) -> nat {
        if self.sheet.len() == 0 {
            0
        } else {
            self.sheet[0].len()
        }
    }

    /// The shape of a sheet: one vector of values for each column, and all
    /// of them of one length.
    pub open spec fn wf(self) -> bool {
        &&& self.types.len() == self.sheet.len()
        &&& forall|c: int| 0 <= c < self.sheet.len() ==> (#[trigger] self.sheet[c]).len() == self.rows()
    }
}

/// The values of column `c` of a delimited document, one for each record.
pub open spec fn csv_column(records: Seq<Seq<FieldView>>, c: int) -> Seq<Value> {
    Seq::new(records.len(), |r: int| records[r][c].value())
}

/// The sheet of a delimited document: the header names the columns, each
/// column holds the parsed fields of all records, and its type is inferred
/// from all of them.
pub open spec fn csv_sheet(name: Seq<char>, document: DelimitedView) -> SheetView {
    SheetView {
        name,
        types: Seq::new(
            document.headers.len(),
            |c: int|
                (
                    document.headers[c],
                    inferred_type(csv_column(document.records, c), document.records.len()),
                ),
        ),
        sheet: Seq::new(document.headers.len(), |c: int| csv_column(document.records, c)),
    }
}

/// Shape: the sheet of a delimited document holds one vector of values for
/// each column, and all of them have one length.
pub proof fn law_csv_sheet_shape(name: Seq<char>, document: DelimitedView)
    ensures
        csv_sheet(name, document).wf(),
        csv_sheet(name, document).columns() == document.headers.len(),
        document.headers.len() > 0 ==> csv_sheet(name, document).rows() == document.records.len(),
{
}

impl SheetView {
    /// No number of the sheet has an empty text.
    pub open spec fn numbers_not_empty(self) -> bool {
        forall|c: int, r: int|
            0 <= c < self.sheet.len() && 0 <= r < self.sheet[c].len() ==> (#[trigger] self.sheet[c][r]).wf()
    }
}

/// Where every floating-point reading that comes with a field is not
/// empty, no number of the sheet of a delimited document has an empty text.
pub proof fn law_csv_numbers_not_empty(name: Seq<char>, document: DelimitedView)
    requires
        document.rectangular(),
        forall|r: int, c: int|
            0 <= r < document.records.len() && 0 <= c < document.records[r].len() ==> (
            #[trigger] document.records[r][c]).wf(),
    ensures
        csv_sheet(name, document).numbers_not_empty(),
{
    let sheet = csv_sheet(name, document);
    assert forall|c: int, r: int|
        0 <= c < sheet.sheet.len() && 0 <= r < sheet.sheet[c].len() implies (
    #[trigger] sheet.sheet[c][r]).wf() by {
        assert(document.records[r].len() == document.headers.len());
        lemma_parsed_value_wf(document.records[r][c]);
    }
}

/// Where every floating-point cell has a text that is not empty, no number
/// of the sheet of a worksheet has an empty text.
pub proof fn law_excel_numbers_not_empty(name: Seq<char>, rows: Seq<Seq<Cell>>)
    requires
        crate::range::rectangular(rows),
        forall|r: int, c: int|
            0 <= r < rows.len() && 0 <= c < rows[r].len() ==> (#[trigger] rows[r][c]).wf(),
    ensures
        excel_sheet(name, rows).numbers_not_empty(),
{
    let sheet = excel_sheet(name, rows);
    assert forall|c: int, r: int|
        0 <= c < sheet.sheet.len() && 0 <= r < sheet.sheet[c].len() implies (
    #[trigger] sheet.sheet[c][r]).wf() by {
        assert(rows[r + 1].len() == rows[0].len());
        lemma_cell_value_wf(rows[r + 1][c]);
    }
}

impl Sheet {
    #[verifier::type_invariant]
    spec fn shaped(self) -> bool {
        self@.wf()
    }

    /// The name of the table.
    pub fn name(&self) -> (r: &String)
        ensures
            r@ == self@.name,
    {
        &self.name
    }

    /// The name and the type expression of each column.
    pub fn types(&self) -> (r: &Vec<(String, String)>)
        ensures
            r.deep_view() == self@.types,
            self@.wf(),
    {
        proof {
            use_type_invariant(self);
        }
        &self.types
    }

    /// The values of each column, one for each row.
    pub fn sheet(&self) -> (r: &Vec<Vec<Values>>)
        ensures
            r.deep_view() == self@.sheet,
            self@.wf(),
    {
        proof {
            use_type_invariant(self);
        }
        &self.sheet
    }

    /// The number of rows.
    pub fn row_count(&self) -> (r: usize)
        ensures
            r == self@.rows(),
            self@.wf(),
    {
        proof {
            use_type_invariant(self);
        }
        if self.sheet.len() == 0 {
            0
        } else {
            assert(self@.sheet[0] == self.sheet[0].deep_view());
            self.sheet[0].len()
        }
    }

    /// Builds the sheet of a delimited document.
    ///
    /// Fails with `MalformedDocument` where a record has not one field for
    /// each name of the header, and on no other input.
    pub fn csv(name: String, document: Delimited) -> (r: Result<Sheet, SheetError>)
        ensures
            match r {
                Ok(sheet) => {
                    &&& document@.rectangular()
                    &&& sheet@ == csv_sheet(name@, document@)
                    &&& sheet@.wf()
                },
                Err(e) => e == SheetError::MalformedDocument && !document@.rectangular(),
            },
    {
        let ghost doc = document@;
        let headers = document.headers;
        let records = document.records;
        let column_count = headers.len();
        let row_count = records.len();
        let mut r: usize = 0;
        while r < row_count
            invariant
                r <= row_count,
                row_count == records.len(),
                column_count == headers.len(),
                doc == document@,
                doc.headers == headers.deep_view(),
                doc.records == records.deep_view(),
                forall|j: int| 0 <= j < r ==> (#[trigger] doc.records[j]).len() == column_count,
            decreases row_count - r,
        {
            if records[r].len() != column_count {
                assert(doc.records[r as int].len() != doc.headers.len());
                return Err(SheetError::MalformedDocument);
            }
            assert(doc.records[r as int].len() == column_count);
            r += 1;
        }
        let mut types: Vec<(String, String)> = Vec::new();
        let mut sheet: Vec<Vec<Values>> = Vec::new();
        let mut c: usize = 0;
        while c < column_count
            invariant
                c <= column_count,
                row_count == records.len(),
                column_count == headers.len(),
                doc.headers == headers.deep_view(),
                doc.records == records.deep_view(),
                doc.rectangular(),
                types.len() == c,
                sheet.len() == c,
                types.deep_view() == csv_sheet(name@, doc).types.take(c as int),
                sheet.deep_view() == csv_sheet(name@, doc).sheet.take(c as int),
            decreases column_count - c,
        {
            let mut column: Vec<Values> = Vec::new();
            let mut r: usize = 0;
            while r < row_count
                invariant
                    r <= row_count,
                    c < column_count,
                    row_count == records.len(),
                    column_count == headers.len(),
                    doc.headers == headers.deep_view(),
                    doc.records == records.deep_view(),
                    doc.rectangular(),
                    column.len() == r,
                    column.deep_view() == csv_column(doc.records, c as int).take(r as int),
                decreases row_count - r,
            {
                let ghost before = column;
                assert(doc.records[r as int].len() == column_count);
                let value = records[r][c].value();
                column.push(value);
                proof {
                    let target = csv_column(doc.records, c as int).take(r + 1);
                    assert(doc.records[r as int][c as int] == records[r as int][c as int]@);
                    assert forall|j: int| 0 <= j < r + 1 implies column.deep_view()[j] == target[j] by {
                        if j < r {
                            assert(column[j] == before[j]);
                            assert(before.deep_view()[j] == csv_column(doc.records, c as int).take(
                                r as int,
                            )[j]);
                        }
                    }
                    assert(column.deep_view() =~= target);
                }
                r += 1;
            }
            assert(column.deep_view() =~= csv_column(doc.records, c as int));
            let column_type = infer(&column, row_count);
            let ghost types_before = types;
            let ghost sheet_before = sheet;
            types.push((headers[c].clone(), column_type));
            sheet.push(column);
            proof {
                let all = csv_sheet(name@, doc);
                assert(doc.headers[c as int] == headers[c as int]@);
                assert forall|j: int| 0 <= j < c + 1 implies types.deep_view()[j] == all.types.take(
                    c + 1,
                )[j] by {
                    if j < c {
                        assert(types[j] == types_before[j]);
                        assert(types_before.deep_view()[j] == all.types.take(c as int)[j]);
                    }
                }
                assert forall|j: int| 0 <= j < c + 1 implies sheet.deep_view()[j] == all.sheet.take(
                    c + 1,
                )[j] by {
                    if j < c {
                        assert(sheet[j] == sheet_before[j]);
                        assert(sheet_before.deep_view()[j] == all.sheet.take(c as int)[j]);
                    }
                }
                assert(types.deep_view() =~= all.types.take(c + 1));
                assert(sheet.deep_view() =~= all.sheet.take(c + 1));
            }
            c += 1;
        }
        let built = Sheet { name, types, sheet };
        proof {
            let all = csv_sheet(name@, doc);
            assert(all.types.take(column_count as int) =~= all.types);
            assert(all.sheet.take(column_count as int) =~= all.sheet);
            law_csv_sheet_shape(name@, doc);
        }
        Ok(built)
    }
}

/// The value of a data cell of a worksheet; an absent value stands for a
/// cell that has none.
pub open spec fn cell_value(cell: Cell) -> Value {
    match cell.value() {
        Ok(v) => v,
        Err(_) => Value::Nil,
    }
}

/// The column name that a cell of the first row gives; the empty text
/// stands for a cell that gives none.
pub open spec fn cell_key(cell: Cell) -> Seq<char> {
    match cell.key() {
        Ok(t) => t,
        Err(_) => Seq::empty(),
    }
}

/// The failure of the leftmost cell of `keys` that names no column.
pub open spec fn first_key_fault(keys: Seq<Cell>) -> Option<SheetError>
    decreases keys.len(),
{
    if keys.len() == 0 {
        None
    } else {
        match keys[0].key() {
            Err(e) => Some(e),
            Ok(_) => first_key_fault(keys.drop_first()),
        }
    }
}

/// Whether a cell below the first row holds an error.
pub open spec fn has_error_cell(rows: Seq<Seq<Cell>>) -> bool {
    exists|r: int, c: int|
        1 <= r < rows.len() && 0 <= c < rows[r].len() && (#[trigger] rows[r][c]) is Error
}

/// Why a worksheet gives no sheet, if it gives none: the first row is read
/// first, from the left, and the cells below it after that.
pub open spec fn excel_fault(rows: Seq<Seq<Cell>>) -> Option<SheetError> {
    if rows.len() == 0 {
        None
    } else if first_key_fault(rows[0]) is Some {
        first_key_fault(rows[0])
    } else if has_error_cell(rows) {
        Some(SheetError::UnparseableCell)
    } else {
        None
    }
}

/// The values of column `c` of a worksheet: one for each row below the
/// first.
pub open spec fn excel_column(rows: Seq<Seq<Cell>>, c: int) -> Seq<Value> {
    Seq::new((rows.len() - 1) as nat, |r: int| cell_value(rows[r + 1][c]))
}

/// The number of columns of a worksheet.
pub open spec fn excel_width(rows: Seq<Seq<Cell>>) -> nat {
    if rows.len() == 0 {
        0
    } else {
        rows[0].len()
    }
}

/// The sheet of a worksheet: the first row names the columns, each column
/// holds the cells below its name, and its type is inferred from all of
/// them.
pub open spec fn excel_sheet(name: Seq<char>, rows: Seq<Seq<Cell>>) -> SheetView {
    SheetView {
        name,
        types: Seq::new(
            excel_width(rows),
            |c: int|
                (cell_key(rows[0][c]), inferred_type(excel_column(rows, c), (rows.len() - 1) as nat)),
        ),
        sheet: Seq::new(excel_width(rows), |c: int| excel_column(rows, c)),
    }
}

/// Shape: the sheet of a worksheet holds one vector of values for each
/// column, and all of them have one length.
pub proof fn law_excel_sheet_shape(name: Seq<char>, rows: Seq<Seq<Cell>>)
    ensures
        excel_sheet(name, rows).wf(),
        excel_sheet(name, rows).columns() == excel_width(rows),
        excel_width(rows) > 0 ==> excel_sheet(name, rows).rows() == rows.len() - 1,
{
}

impl Sheet {
    /// Builds the sheet of a worksheet.
    ///
    /// Fails where a cell of the first row names no column (`MalformedHeader`
    /// for a truth value or an empty cell, `UnparseableCell` for a cell that
    /// holds an error; the leftmost such cell decides), and with
    /// `UnparseableCell` where the first row is sound and a cell below it
    /// holds an error.
    pub fn excel(name: String, range: CellRange) -> (r: Result<Sheet, SheetError>)
        ensures
            match r {
                Ok(sheet) => {
                    &&& excel_fault(range@) is None
                    &&& sheet@ == excel_sheet(name@, range@)
                    &&& sheet@.wf()
                },
                Err(e) => excel_fault(range@) == Some(e),
            },
    {
        let (height, width) = range.get_size();
        let ghost rows = range@;
        if height == 0 {
            let built = Sheet { name, types: Vec::new(), sheet: Vec::new() };
            proof {
                assert(built@.types =~= excel_sheet(name@, rows).types);
                assert(built@.sheet =~= excel_sheet(name@, rows).sheet);
            }
            return Ok(built);
        }
        let mut keys: Vec<String> = Vec::new();
        let mut c: usize = 0;
        assert(rows[0].skip(0) =~= rows[0]);
        while c < width
            invariant
                c <= width,
                rows == range@,
                height == rows.len(),
                height > 0,
                width == rows[0].len(),
                keys.len() == c,
                first_key_fault(rows[0]) == first_key_fault(rows[0].skip(c as int)),
                forall|k: int| 0 <= k < c ==> (#[trigger] rows[0][k]).key() == Ok::<Seq<char>, SheetError>(keys[k]@),
            decreases width - c,
        {
            let ghost rest = rows[0].skip(c as int);
            proof {
                assert(rest[0] == rows[0][c as int]);
                assert(rest.drop_first() =~= rows[0].skip(c + 1));
            }
            match range.get((0, c)).unwrap().key() {
                Ok(key) => {
                    keys.push(key);
                },
                Err(e) => {
                    return Err(e);
                },
            }
            c += 1;
        }
        assert(first_key_fault(rows[0]) is None) by {
            assert(rows[0].skip(width as int).len() == 0);
        }
        let row_count: usize = height - 1;
        let mut types: Vec<(String, String)> = Vec::new();
        let mut sheet: Vec<Vec<Values>> = Vec::new();
        let mut c: usize = 0;
        while c < width
            invariant
                c <= width,
                rows == range@,
                crate::range::rectangular(rows),
                height == rows.len(),
                height > 0,
                row_count == height - 1,
                width == rows[0].len(),
                keys.len() == width,
                first_key_fault(rows[0]) is None,
                forall|k: int| 0 <= k < width ==> (#[trigger] rows[0][k]).key() == Ok::<Seq<char>, SheetError>(keys[k]@),
                forall|r: int, k: int| 1 <= r < height && 0 <= k < c ==> !((#[trigger] rows[r][k]) is Error),
                types.len() == c,
                sheet.len() == c,
                types.deep_view() == excel_sheet(name@, rows).types.take(c as int),
                sheet.deep_view() == excel_sheet(name@, rows).sheet.take(c as int),
            decreases width - c,
        {
            let mut column: Vec<Values> = Vec::new();
            let mut r: usize = 0;
            while r < row_count
                invariant
                    r <= row_count,
                    c < width,
                    rows == range@,
                    crate::range::rectangular(rows),
                    height == rows.len(),
                    height > 0,
                    row_count == height - 1,
                    width == rows[0].len(),
                    first_key_fault(rows[0]) is None,
                    forall|j: int| 1 <= j < r + 1 ==> !((#[trigger] rows[j][c as int]) is Error),
                    column.len() == r,
                    column.deep_view() == excel_column(rows, c as int).take(r as int),
                decreases row_count - r,
            {
                let ghost before = column;
                assert(rows[r + 1].len() == rows[0].len());
                match range.get((r + 1, c)).unwrap().value() {
                    Ok(value) => {
                        column.push(value);
                    },
                    Err(e) => {
                        assert(rows[r + 1][c as int] is Error);
                        assert(has_error_cell(rows));
                        return Err(e);
                    },
                }
                proof {
                    let target = excel_column(rows, c as int).take(r + 1);
                    assert forall|j: int| 0 <= j < r + 1 implies column.deep_view()[j] == target[j] by {
                        if j < r {
                            assert(column[j] == before[j]);
                            assert(before.deep_view()[j] == excel_column(rows, c as int).take(
                                r as int,
                            )[j]);
                        }
                    }
                    assert(column.deep_view() =~= target);
                }
                r += 1;
            }
            assert(column.deep_view() =~= excel_column(rows, c as int));
            let column_type = infer(&column, row_count);
            let ghost types_before = types;
            let ghost sheet_before = sheet;
            types.push((keys[c].clone(), column_type));
            sheet.push(column);
            proof {
                let all = excel_sheet(name@, rows);
                assert(rows[0][c as int].key() == Ok::<Seq<char>, SheetError>(keys[c as int]@));
                assert forall|j: int| 0 <= j < c + 1 implies types.deep_view()[j] == all.types.take(
                    c + 1,
                )[j] by {
                    if j < c {
                        assert(types[j] == types_before[j]);
                        assert(types_before.deep_view()[j] == all.types.take(c as int)[j]);
                    }
                }
                assert forall|j: int| 0 <= j < c + 1 implies sheet.deep_view()[j] == all.sheet.take(
                    c + 1,
                )[j] by {
                    if j < c {
                        assert(sheet[j] == sheet_before[j]);
                        assert(sheet_before.deep_view()[j] == all.sheet.take(c as int)[j]);
                    }
                }
                assert(types.deep_view() =~= all.types.take(c + 1));
                assert(sheet.deep_view() =~= all.sheet.take(c + 1));
            }
            c += 1;
        }
        let built = Sheet { name, types, sheet };
        proof {
            let all = excel_sheet(name@, rows);
            assert(all.types.take(width as int) =~= all.types);
            assert(all.sheet.take(width as int) =~= all.sheet);
            law_excel_sheet_shape(name@, rows);
            assert(!has_error_cell(rows));
        }
        Ok(built)
    }
}

} // verus!
