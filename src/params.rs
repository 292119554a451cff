//! The output of one remote call as plain values: named parameters, each a
//! text value or a table of rows with named columns.
use vstd::prelude::*;
use crate::lookup::{first_index, lemma_first_index, lemma_first_index_at};

verus! {

/// One column value of a row.
#[derive(Clone, Debug)]
pub struct Cell {
    pub column: String,
    pub text: String,
}

/// One row of a table parameter.
#[derive(Clone, Debug)]
pub struct Row {
    pub cells: Vec<Cell>,
}

#[derive(Clone, Debug)]
pub enum ParamData {
    Text(String),
    Table(Vec<Row>),
}

/// A named output parameter.
#[derive(Clone, Debug)]
pub struct Parameter {
    pub name: String,
    pub data: ParamData,
}

/// The named-parameter container of one call result.
#[derive(Clone, Debug)]
pub struct CallResult {
    pub params: Vec<Parameter>,
}

/// Why a decode failed.
#[derive(Clone, Debug, PartialEq, Eq)]
pub enum DecodeError {
    /// No parameter of the result carries the field's alias.
    UnknownField(String),
    /// No column of the row carries the field's alias.
    UnknownColumn(String),
    /// The named parameter was read as a table but holds text.
    NotATable(String),
    /// The named parameter was read as text but holds a table.
    NotText(String),
    /// A row index past the end of a table.
    RowOutOfRange { index: usize, count: usize },
    /// A column index past the end of a row.
    ColumnOutOfRange { index: usize, count: usize },
    /// A collection field whose element type has no table model.
    NoRowModel(String),
}

/// What a `DecodeError` says, over plain sequences.
pub enum ErrorView {
    UnknownField(Seq<char>),
    UnknownColumn(Seq<char>),
    NotATable(Seq<char>),
    NotText(Seq<char>),
    RowOutOfRange { index: usize, count: usize },
    ColumnOutOfRange { index: usize, count: usize },
    NoRowModel(Seq<char>),
}

impl View for DecodeError {
    type V = ErrorView;

    open spec fn view(&self) -> ErrorView {
        match self {
            DecodeError::UnknownField(s) => ErrorView::UnknownField(s@),
            DecodeError::UnknownColumn(s) => ErrorView::UnknownColumn(s@),
            DecodeError::NotATable(s) => ErrorView::NotATable(s@),
            DecodeError::NotText(s) => ErrorView::NotText(s@),
            DecodeError::RowOutOfRange { index, count } => ErrorView::RowOutOfRange {
                index: *index,
                count: *count,
            },
            DecodeError::ColumnOutOfRange { index, count } => ErrorView::ColumnOutOfRange {
                index: *index,
                count: *count,
            },
            DecodeError::NoRowModel(s) => ErrorView::NoRowModel(s@),
        }
    }
}

pub open spec fn column_keys(cells: Seq<Cell>) -> Seq<Seq<char>> {
    cells.map_values(|c: Cell| c.column@)
}

pub open spec fn param_keys(params: Seq<Parameter>) -> Seq<Seq<char>> {
    params.map_values(|p: Parameter| p.name@)
}

impl CallResult {
    /// The first parameter named `name`.
    pub fn lookup_parameter(&self, name: &String) -> (r: Option<&Parameter>)
        ensures
            match first_index(param_keys(self.params@), name@) {
                Some(i) => r is Some && *r->Some_0 == self.params@[i],
                None => r is None,
            },
    {
        let ghost keys = param_keys(self.params@);
        let mut i: usize = 0;
        while i < self.params.len()
            invariant
                i <= self.params@.len(),
                keys == param_keys(self.params@),
                forall|j: int| 0 <= j < i ==> keys[j] != name@,
            decreases self.params@.len() - i,
        {
            if self.params[i].name == *name {
                proof {
                    lemma_first_index_at(keys, name@, i as int);
                }
                return Some(&self.params[i]);
            }
            i = i + 1;
        }
        proof {
            lemma_first_index(keys, name@);
        }
        None
    }
}

impl Parameter {
    /// The number of rows of a table parameter.
    pub fn row_count(&self) -> (r: Result<usize, DecodeError>)
        ensures
            match self.data {
                ParamData::Table(rows) => r is Ok && r->Ok_0 as int == rows@.len(),
                ParamData::Text(_) => r is Err && r->Err_0@ == ErrorView::NotATable(self.name@),
            },
    {
        match &self.data {
            ParamData::Table(rows) => Ok(rows.len()),
            ParamData::Text(_) => Err(DecodeError::NotATable(self.name.clone())),
        }
    }

    /// The row at `index` of a table parameter.
    pub fn select_row(&self, index: usize) -> (r: Result<&Row, DecodeError>)
        ensures
            match self.data {
                ParamData::Table(rows) => if index < rows@.len() {
                    r is Ok && *r->Ok_0 == rows@[index as int]
                } else {
                    r is Err && r->Err_0@ == ErrorView::RowOutOfRange {
                        index,
                        count: rows@.len() as usize,
                    }
                },
                ParamData::Text(_) => r is Err && r->Err_0@ == ErrorView::NotATable(self.name@),
            },
    {
        match &self.data {
            ParamData::Table(rows) => {
                if index < rows.len() {
                    Ok(&rows[index])
                } else {
                    Err(DecodeError::RowOutOfRange { index, count: rows.len() })
                }
            },
            ParamData::Text(_) => Err(DecodeError::NotATable(self.name.clone())),
        }
    }

    /// The text of a scalar parameter, as it was received.
    pub fn text_content(&self) -> (r: Result<String, DecodeError>)
        ensures
            match self.data {
                ParamData::Text(t) => r is Ok && r->Ok_0@ == t@,
                ParamData::Table(_) => r is Err && r->Err_0@ == ErrorView::NotText(self.name@),
            },
    {
        match &self.data {
            ParamData::Text(t) => Ok(t.clone()),
            ParamData::Table(_) => Err(DecodeError::NotText(self.name.clone())),
        }
    }
}

impl Row {
    /// The position of the first column named `name`.
    pub fn column_index(&self, name: &String) -> (r: Result<usize, DecodeError>)
        ensures
            match first_index(column_keys(self.cells@), name@) {
                Some(i) => r is Ok && r->Ok_0 as int == i,
                None => r is Err && r->Err_0@ == ErrorView::UnknownColumn(name@),
            },
    {
        let ghost keys = column_keys(self.cells@);
        let mut i: usize = 0;
        while i < self.cells.len()
            invariant
                i <= self.cells@.len(),
                keys == column_keys(self.cells@),
                forall|j: int| 0 <= j < i ==> keys[j] != name@,
            decreases self.cells@.len() - i,
        {
            if self.cells[i].column == *name {
                proof {
                    lemma_first_index_at(keys, name@, i as int);
                }
                return Ok(i);
            }
            i = i + 1;
        }
        proof {
            lemma_first_index(keys, name@);
        }
        Err(DecodeError::UnknownColumn(name.clone()))
    }

    /// The text of the column at `index`.
    pub fn column_at(&self, index: usize) -> (r: Result<String, DecodeError>)
        ensures
            if index < self.cells@.len() {
                r is Ok && r->Ok_0@ == self.cells@[index as int].text@
            } else {
                r is Err && r->Err_0@ == ErrorView::ColumnOutOfRange {
                    index,
                    count: self.cells@.len() as usize,
                }
            },
    {
        if index < self.cells.len() {
            Ok(self.cells[index].text.clone())
        } else {
            Err(DecodeError::ColumnOutOfRange { index, count: self.cells.len() })
        }
    }
}

} // verus!
