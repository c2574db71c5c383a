//! A worksheet as the library reads it: a rectangle of typed source cells.

use crate::error::SheetError;
use crate::text::{decimal, i64_to_string, lemma_decimal_len};
use crate::value::{Value, Values};
use vstd::prelude::*;

verus! {

/// One cell of a worksheet. What a spreadsheet holds as a floating-point
/// number, a date or a time comes as its canonical text, an error as its
/// message.
#[derive(Debug)]
pub enum SourceCell {
    Int(i64),
    Float(String),
    String(String),
    Bool(bool),
    DateTime(String),
    DateTimeIso(String),
    DurationIso(String),
    Error(String),
    Empty,
}

/// The mathematical content of a [`SourceCell`].
pub enum Cell {
    Int(i64),
    Float(Seq<char>),
    String(Seq<char>),
    Bool(bool),
    DateTime(Seq<char>),
    DateTimeIso(Seq<char>),
    DurationIso(Seq<char>),
    Error(Seq<char>),
    Empty,
}

impl View for SourceCell {
    type V = Cell;

    open spec fn view(&self) -> Cell {
        match self {
            SourceCell::Int(i) => Cell::Int(*i),
            SourceCell::Float(t) => Cell::Float(t@),
            SourceCell::String(s) => Cell::String(s@),
            SourceCell::Bool(b) => Cell::Bool(*b),
            SourceCell::DateTime(t) => Cell::DateTime(t@),
            SourceCell::DateTimeIso(t) => Cell::DateTimeIso(t@),
            SourceCell::DurationIso(t) => Cell::DurationIso(t@),
            SourceCell::Error(m) => Cell::Error(m@),
            SourceCell::Empty => Cell::Empty,
        }
    }
}

impl DeepView for SourceCell {
    type V = Cell;

    open spec fn deep_view(&self) -> Cell {
        self@
    }
}

impl Cell {
    /// The value of a data cell. A cell that holds an error has none.
    pub open spec fn value(self) -> Result<Value, SheetError> {
        match self {
            Cell::Int(i) => Ok(Value::Number(decimal(i as int))),
            Cell::Float(t) => Ok(Value::Number(t)),
            Cell::String(s) => Ok(Value::String(s)),
            Cell::Bool(b) => Ok(Value::Boolean(b)),
            Cell::DateTime(t) => Ok(Value::String(t)),
            Cell::DateTimeIso(t) => Ok(Value::String(t)),
            Cell::DurationIso(t) => Ok(Value::String(t)),
            Cell::Error(_) => Err(SheetError::UnparseableCell),
            Cell::Empty => Ok(Value::Nil),
        }
    }

    /// The column name that a cell of the first row gives. A truth value
    /// and an empty cell name nothing, and a cell that holds an error has
    /// no reading at all.
    pub open spec fn key(self) -> Result<Seq<char>, SheetError> {
        match self {
            Cell::Int(i) => Ok(decimal(i as int)),
            Cell::Float(t) => Ok(t),
            Cell::String(s) => Ok(s),
            Cell::Bool(_) => Err(SheetError::MalformedHeader),
            Cell::DateTime(t) => Ok(t),
            Cell::DateTimeIso(t) => Ok(t),
            Cell::DurationIso(t) => Ok(t),
            Cell::Error(_) => Err(SheetError::UnparseableCell),
            Cell::Empty => Err(SheetError::MalformedHeader),
        }
    }

    /// The coarse kind of a cell: `number`, `string`, `boolean` or `nil`.
    pub open spec fn hint(self) -> Result<Seq<char>, SheetError> {
        match self {
            Cell::Int(_) => Ok("number"@),
            Cell::Float(_) => Ok("number"@),
            Cell::String(_) => Ok("string"@),
            Cell::Bool(_) => Ok("boolean"@),
            Cell::DateTime(_) => Ok("string"@),
            Cell::DateTimeIso(_) => Ok("string"@),
            Cell::DurationIso(_) => Ok("string"@),
            Cell::Error(_) => Err(SheetError::UnparseableCell),
            Cell::Empty => Ok("nil"@),
        }
    }

    /// The text of a floating-point cell is not empty.
    pub open spec fn wf(self) -> bool {
        self matches Cell::Float(t) ==> t.len() > 0
    }
}

/// A cell whose floating-point text is not empty gives no number with an
/// empty text.
pub proof fn lemma_cell_value_wf(cell: Cell)
    requires
        cell.wf(),
    ensures
        cell.value() matches Ok(v) ==> v.wf(),
{
    if let Cell::Int(i) = cell {
        lemma_decimal_len(i as int);
    }
}

/// What a `Result` of a text holds, as characters.
pub open spec fn result_text(r: Result<String, SheetError>) -> Result<Seq<char>, SheetError> {
    match r {
        Ok(t) => Ok(t@),
        Err(e) => Err(e),
    }
}

/// What a `Result` of a value holds, as its model.
pub open spec fn result_value(r: Result<Values, SheetError>) -> Result<Value, SheetError> {
    match r {
        Ok(v) => Ok(v@),
        Err(e) => Err(e),
    }
}

impl SourceCell {
    /// The value of a data cell; `UnparseableCell` for a cell that holds an
    /// error.
    pub fn value(&self) -> (r: Result<Values, SheetError>)
        ensures
            result_value(r) == self@.value(),
            self@.wf() ==> (r matches Ok(v) ==> v@.wf()),
    {
        match self {
            SourceCell::Int(i) => Ok(Values::Number(i64_to_string(*i))),
            SourceCell::Float(t) => Ok(Values::Number(t.clone())),
            SourceCell::String(s) => Ok(Values::String(s.clone())),
            SourceCell::Bool(b) => Ok(Values::Boolean(*b)),
            SourceCell::DateTime(t) => Ok(Values::String(t.clone())),
            SourceCell::DateTimeIso(t) => Ok(Values::String(t.clone())),
            SourceCell::DurationIso(t) => Ok(Values::String(t.clone())),
            SourceCell::Error(_) => Err(SheetError::UnparseableCell),
            SourceCell::Empty => Ok(Values::Nil),
        }
    }

    /// The column name that the cell gives; `MalformedHeader` for a truth
    /// value and for an empty cell, `UnparseableCell` for a cell that holds
    /// an error.
    pub fn key(&self) -> (r: Result<String, SheetError>)
        ensures
            result_text(r) == self@.key(),
    {
        match self {
            SourceCell::Int(i) => Ok(i64_to_string(*i)),
            SourceCell::Float(t) => Ok(t.clone()),
            SourceCell::String(s) => Ok(s.clone()),
            SourceCell::Bool(_) => Err(SheetError::MalformedHeader),
            SourceCell::DateTime(t) => Ok(t.clone()),
            SourceCell::DateTimeIso(t) => Ok(t.clone()),
            SourceCell::DurationIso(t) => Ok(t.clone()),
            SourceCell::Error(_) => Err(SheetError::UnparseableCell),
            SourceCell::Empty => Err(SheetError::MalformedHeader),
        }
    }

    /// The coarse kind of the cell, a label to group columns by. It is not
    /// the type of a column: that is inferred from all of its values.
    pub fn hint(&self) -> (r: Result<String, SheetError>)
        ensures
            result_text(r) == self@.hint(),
    {
        match self {
            SourceCell::Int(_) => Ok(String::from_str("number")),
            SourceCell::Float(_) => Ok(String::from_str("number")),
            SourceCell::String(_) => Ok(String::from_str("string")),
            SourceCell::Bool(_) => Ok(String::from_str("boolean")),
            SourceCell::DateTime(_) => Ok(String::from_str("string")),
            SourceCell::DateTimeIso(_) => Ok(String::from_str("string")),
            SourceCell::DurationIso(_) => Ok(String::from_str("string")),
            SourceCell::Error(_) => Err(SheetError::UnparseableCell),
            SourceCell::Empty => Ok(String::from_str("nil")),
        }
    }
}

/// Whether every row of `rows` is as long as the first.
pub open spec fn rectangular(rows: Seq<Seq<Cell>>) -> bool {
    forall|r: int| 0 <= r < rows.len() ==> (#[trigger] rows[r]).len() == rows[0].len()
}

/// A rectangle of cells: the used part of a worksheet, row by row.
#[derive(Debug)]
pub struct CellRange {
    rows: Vec<Vec<SourceCell>>,
}

impl View for CellRange {
    type V = Seq<Seq<Cell>>;

    closed spec fn view(&self) -> Seq<Seq<Cell>> {
        self.rows.deep_view()
    }
}

impl CellRange {
    #[verifier::type_invariant]
    spec fn all_rows_of_one_length(self) -> bool {
        rectangular(self.rows.deep_view())
    }

    /// The range of the given rows, where all of them have one length.
    pub fn from_rows(rows: Vec<Vec<SourceCell>>) -> (r: Option<CellRange>)
        ensures
            r is Some == rectangular(rows.deep_view()),
            r matches Some(range) ==> range@ == rows.deep_view(),
    {
        let ghost model = rows.deep_view();
        let mut i: usize = 0;
        while i < rows.len()
            invariant
                i <= rows.len(),
                model == rows.deep_view(),
                forall|j: int| 0 <= j < i ==> (#[trigger] model[j]).len() == model[0].len(),
            decreases rows.len() - i,
        {
            if rows[i].len() != rows[0].len() {
                assert(model[i as int].len() != model[0].len());
                return None;
            }
            assert(model[i as int].len() == model[0].len());
            i += 1;
        }
        Some(CellRange { rows })
    }

    /// The number of rows and the number of columns.
    pub fn get_size(&self) -> (r: (usize, usize))
        ensures
            r.0 == self@.len(),
            r.1 == (if self@.len() == 0 {
                0
            } else {
                self@[0].len()
            }),
            rectangular(self@),
    {
        proof {
            use_type_invariant(self);
        }
        if self.rows.len() == 0 {
            (0, 0)
        } else {
            assert(self@[0] == self.rows[0].deep_view());
            (self.rows.len(), self.rows[0].len())
        }
    }

    /// The cell at the given row and column, where the range has one.
    pub fn get(&self, position: (usize, usize)) -> (r: Option<&SourceCell>)
        ensures
            r is Some == (position.0 < self@.len() && position.1 < self@[0].len()),
            r matches Some(cell) ==> cell@ == self@[position.0 as int][position.1 as int],
    {
        proof {
            use_type_invariant(self);
        }
        if position.0 < self.rows.len() {
            assert(self@[position.0 as int] == self.rows[position.0 as int].deep_view());
            assert(self@[position.0 as int].len() == self@[0].len());
            if position.1 < self.rows[position.0].len() {
                Some(&self.rows[position.0][position.1])
            } else {
                None
            }
        } else {
            None
        }
    }
}

} // verus!
