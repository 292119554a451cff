//! The two decoders: a whole call result, and one table row.
use vstd::prelude::*;
use crate::field::{element_spec, last_ident, Classification, Field, TypeExpr};
use crate::lookup::{first_index, lemma_first_index, lemma_first_index_at};
use crate::model::Model;
use crate::params::{
    column_keys, param_keys, CallResult, DecodeError, ErrorView, ParamData, Parameter, Row,
};
use crate::text::{trim_end, trim_end_spec};

verus! {

/// What the row decoder does with the trailing padding of a column value.
#[derive(Clone, Copy, Debug, PartialEq, Eq, Structural)]
pub enum Padding {
    /// The value is taken as received.
    Keep,
    /// Trailing white space is removed.
    TrimEnd,
}

/// The decoded value of one field.
#[derive(Clone, Debug, PartialEq, Eq)]
pub enum Value {
    /// A scalar field: the parameter's text without trailing padding.
    Text(String),
    /// A collection field: one decoded row per table row, each holding one
    /// value per field of the element model.
    Rows(Vec<Vec<String>>),
}

pub enum ValueView {
    Text(Seq<char>),
    Rows(Seq<Seq<Seq<char>>>),
}

pub open spec fn strings_view(v: Seq<String>) -> Seq<Seq<char>> {
    v.map_values(|s: String| s@)
}

pub open spec fn rows_view(v: Seq<Vec<String>>) -> Seq<Seq<Seq<char>>> {
    v.map_values(|r: Vec<String>| strings_view(r@))
}

impl View for Value {
    type V = ValueView;

    open spec fn view(&self) -> ValueView {
        match self {
            Value::Text(s) => ValueView::Text(s@),
            Value::Rows(v) => ValueView::Rows(rows_view(v@)),
        }
    }
}

pub open spec fn values_view(v: Seq<Value>) -> Seq<ValueView> {
    v.map_values(|x: Value| x@)
}

pub open spec fn pad_spec(s: Seq<char>, padding: Padding) -> Seq<char> {
    match padding {
        Padding::Keep => s,
        Padding::TrimEnd => trim_end_spec(s),
    }
}

/// The value of the column named `alias` in `row`.
pub open spec fn cell_spec(row: Row, alias: Seq<char>, padding: Padding) -> Result<
    Seq<char>,
    ErrorView,
> {
    match first_index(column_keys(row.cells@), alias) {
        Some(j) => Ok(pad_spec(row.cells@[j].text@, padding)),
        None => Err(ErrorView::UnknownColumn(alias)),
    }
}

/// One row decoded by `fields`: each field reads the column named by its
/// alias, in declaration order; the first missing column is the error.
pub open spec fn row_spec(fields: Seq<Field>, row: Row, padding: Padding) -> Result<
    Seq<Seq<char>>,
    ErrorView,
>
    decreases fields.len(),
{
    if fields.len() == 0 {
        Ok(seq![])
    } else {
        match row_spec(fields.drop_last(), row, padding) {
            Err(e) => Err(e),
            Ok(pre) => match cell_spec(row, fields.last().alias_view(), padding) {
                Ok(v) => Ok(pre.push(v)),
                Err(e) => Err(e),
            },
        }
    }
}

/// The rows decoded in ascending order; the first row that fails is the
/// error.
pub open spec fn table_spec(fields: Seq<Field>, rows: Seq<Row>, padding: Padding) -> Result<
    Seq<Seq<Seq<char>>>,
    ErrorView,
>
    decreases rows.len(),
{
    if rows.len() == 0 {
        Ok(seq![])
    } else {
        match table_spec(fields, rows.drop_last(), padding) {
            Err(e) => Err(e),
            Ok(pre) => match row_spec(fields, rows.last(), padding) {
                Ok(v) => Ok(pre.push(v)),
                Err(e) => Err(e),
            },
        }
    }
}

/// A collection parameter decoded by `fields`.
pub open spec fn rows_spec(fields: Seq<Field>, param: Parameter, padding: Padding) -> Result<
    Seq<Seq<Seq<char>>>,
    ErrorView,
> {
    match param.data {
        ParamData::Table(rows) => table_spec(fields, rows@, padding),
        ParamData::Text(_) => Err(ErrorView::NotATable(param.name@)),
    }
}

pub open spec fn model_keys(tables: Seq<Model>) -> Seq<Seq<char>> {
    tables.map_values(|m: Model| m.ident@)
}

/// The name an element type is registered under: its last identifier.
pub open spec fn element_name(u: TypeExpr) -> Seq<char> {
    match last_ident(u) {
        Some(n) => n,
        None => seq![],
    }
}

/// One field of a result: the parameter named by the alias, read as a table
/// through the element's model, or as text without trailing padding.
pub open spec fn field_spec(f: Field, tables: Seq<Model>, result: CallResult, padding: Padding) -> Result<
    ValueView,
    ErrorView,
> {
    match first_index(param_keys(result.params@), f.alias_view()) {
        None => Err(ErrorView::UnknownField(f.alias_view())),
        Some(p) => {
            let param = result.params@[p];
            match element_spec(f.ty) {
                Some(u) => match first_index(model_keys(tables), element_name(u)) {
                    None => Err(ErrorView::NoRowModel(element_name(u))),
                    Some(k) => match rows_spec(tables[k].fields@, param, padding) {
                        Ok(rows) => Ok(ValueView::Rows(rows)),
                        Err(e) => Err(e),
                    },
                },
                None => match param.data {
                    ParamData::Text(t) => Ok(ValueView::Text(trim_end_spec(t@))),
                    ParamData::Table(_) => Err(ErrorView::NotText(param.name@)),
                },
            }
        },
    }
}

/// A whole result decoded field by field, in declaration order; the first
/// field that fails is the error.
pub open spec fn result_spec(
    fields: Seq<Field>,
    tables: Seq<Model>,
    result: CallResult,
    padding: Padding,
) -> Result<Seq<ValueView>, ErrorView>
    decreases fields.len(),
{
    if fields.len() == 0 {
        Ok(seq![])
    } else {
        match result_spec(fields.drop_last(), tables, result, padding) {
            Err(e) => Err(e),
            Ok(pre) => match field_spec(fields.last(), tables, result, padding) {
                Ok(v) => Ok(pre.push(v)),
                Err(e) => Err(e),
            },
        }
    }
}

/// Reads the column named `alias` of `row`.
fn decode_cell(row: &Row, alias: &String, padding: Padding) -> (r: Result<String, DecodeError>)
    ensures
        match cell_spec(*row, alias@, padding) {
            Ok(v) => r is Ok && r->Ok_0@ == v,
            Err(e) => r is Err && r->Err_0@ == e,
        },
{
    let idx = match row.column_index(alias) {
        Ok(i) => i,
        Err(e) => {
            return Err(e);
        },
    };
    proof {
        lemma_first_index(column_keys(row.cells@), alias@);
        assert(first_index(column_keys(row.cells@), alias@) == Some(idx as int));
        assert(idx < row.cells@.len());
    }
    let text = match row.column_at(idx) {
        Ok(t) => t,
        Err(e) => {
            return Err(e);
        },
    };
    match padding {
        Padding::Keep => Ok(text),
        Padding::TrimEnd => Ok(trim_end(text.as_str())),
    }
}

/// Decodes one table row with the fields of `model`: each field reads the
/// column named by its alias.
pub fn decode_row(model: &Model, row: &Row, padding: Padding) -> (r: Result<
    Vec<String>,
    DecodeError,
>)
    ensures
        match row_spec(model.fields@, *row, padding) {
            Ok(v) => r is Ok && strings_view(r->Ok_0@) == v,
            Err(e) => r is Err && r->Err_0@ == e,
        },
{
    let fields = &model.fields;
    let mut out: Vec<String> = Vec::new();
    let mut i: usize = 0;
    proof {
        assert(fields@.take(0) =~= seq![]);
        assert(strings_view(out@) =~= seq![]);
    }
    while i < fields.len()
        invariant
            i <= fields@.len(),
            fields@ == model.fields@,
            row_spec(fields@.take(i as int), *row, padding) == Ok::<Seq<Seq<char>>, ErrorView>(
                strings_view(out@),
            ),
        decreases fields@.len() - i,
    {
        proof {
            assert(fields@.take(i + 1).drop_last() =~= fields@.take(i as int));
        }
        let alias = fields[i].alias_name();
        match decode_cell(row, &alias, padding) {
            Ok(v) => {
                let ghost pre = strings_view(out@);
                out.push(v);
                proof {
                    assert(strings_view(out@) =~= pre.push(v@));
                }
            },
            Err(e) => {
                proof {
                    lemma_row_err_extends(fields@, *row, padding, i as int + 1, e@);
                }
                return Err(e);
            },
        }
        i = i + 1;
    }
    proof {
        assert(fields@.take(i as int) =~= fields@);
    }
    Ok(out)
}

proof fn lemma_row_err_extends(fields: Seq<Field>, row: Row, padding: Padding, k: int, e: ErrorView)
    requires
        0 <= k <= fields.len(),
        row_spec(fields.take(k), row, padding) == Err::<Seq<Seq<char>>, ErrorView>(e),
    ensures
        row_spec(fields, row, padding) == Err::<Seq<Seq<char>>, ErrorView>(e),
    decreases fields.len() - k,
{
    if k < fields.len() {
        assert(fields.take(k + 1).drop_last() =~= fields.take(k));
        lemma_row_err_extends(fields, row, padding, k + 1, e);
    } else {
        assert(fields.take(k) =~= fields);
    }
}

proof fn lemma_table_err_extends(
    fields: Seq<Field>,
    rows: Seq<Row>,
    padding: Padding,
    k: int,
    e: ErrorView,
)
    requires
        0 <= k <= rows.len(),
        table_spec(fields, rows.take(k), padding) == Err::<Seq<Seq<Seq<char>>>, ErrorView>(e),
    ensures
        table_spec(fields, rows, padding) == Err::<Seq<Seq<Seq<char>>>, ErrorView>(e),
    decreases rows.len() - k,
{
    if k < rows.len() {
        assert(rows.take(k + 1).drop_last() =~= rows.take(k));
        lemma_table_err_extends(fields, rows, padding, k + 1, e);
    } else {
        assert(rows.take(k) =~= rows);
    }
}

/// Decodes every row of a table parameter with `model`, in ascending row
/// order. No rows give an empty sequence; the first row that fails aborts
/// the whole with that row's error.
pub fn decode_rows(model: &Model, param: &Parameter, padding: Padding) -> (r: Result<
    Vec<Vec<String>>,
    DecodeError,
>)
    ensures
        match rows_spec(model.fields@, *param, padding) {
            Ok(v) => r is Ok && rows_view(r->Ok_0@) == v,
            Err(e) => r is Err && r->Err_0@ == e,
        },
{
    let count = match param.row_count() {
        Ok(n) => n,
        Err(e) => {
            return Err(e);
        },
    };
    let ghost rows = param.data->Table_0@;
    let mut out: Vec<Vec<String>> = Vec::new();
    let mut i: usize = 0;
    proof {
        assert(rows.take(0) =~= seq![]);
        assert(rows_view(out@) =~= seq![]);
    }
    while i < count
        invariant
            param.data is Table,
            rows == param.data->Table_0@,
            count == rows.len(),
            i <= count,
            table_spec(model.fields@, rows.take(i as int), padding) == Ok::<
                Seq<Seq<Seq<char>>>,
                ErrorView,
            >(rows_view(out@)),
        decreases count - i,
    {
        proof {
            assert(rows.take(i + 1).drop_last() =~= rows.take(i as int));
        }
        let row = match param.select_row(i) {
            Ok(row) => row,
            Err(e) => {
                return Err(e);
            },
        };
        match decode_row(model, row, padding) {
            Ok(v) => {
                let ghost pre = rows_view(out@);
                out.push(v);
                proof {
                    assert(rows_view(out@) =~= pre.push(strings_view(v@)));
                }
            },
            Err(e) => {
                proof {
                    lemma_table_err_extends(model.fields@, rows, padding, i as int + 1, e@);
                }
                return Err(e);
            },
        }
        i = i + 1;
    }
    proof {
        assert(rows.take(i as int) =~= rows);
    }
    Ok(out)
}

/// The name an element type is registered under.
fn element_name_of(u: &TypeExpr) -> (r: String)
    ensures
        r@ == element_name(*u),
{
    match u {
        TypeExpr::Path(segs) => {
            if segs.len() == 0 {
                String::new()
            } else {
                segs[segs.len() - 1].ident.clone()
            }
        },
        TypeExpr::Other(_) => String::new(),
    }
}

/// The position of the first table model named `name`.
pub fn find_model(tables: &Vec<Model>, name: &String) -> (r: Option<usize>)
    ensures
        match first_index(model_keys(tables@), name@) {
            Some(k) => r is Some && r->Some_0 as int == k,
            None => r is None,
        },
{
    let ghost keys = model_keys(tables@);
    let mut i: usize = 0;
    while i < tables.len()
        invariant
            i <= tables@.len(),
            keys == model_keys(tables@),
            forall|j: int| 0 <= j < i ==> keys[j] != name@,
        decreases tables@.len() - i,
    {
        if tables[i].ident == *name {
            proof {
                lemma_first_index_at(keys, name@, i as int);
            }
            return Some(i);
        }
        i = i + 1;
    }
    proof {
        lemma_first_index(keys, name@);
    }
    None
}

/// Decodes one field of a result.
pub fn decode_field(f: &Field, tables: &Vec<Model>, result: &CallResult, padding: Padding) -> (r:
    Result<Value, DecodeError>)
    ensures
        match field_spec(*f, tables@, *result, padding) {
            Ok(v) => r is Ok && r->Ok_0@ == v,
            Err(e) => r is Err && r->Err_0@ == e,
        },
{
    let alias = f.alias_name();
    let param = match result.lookup_parameter(&alias) {
        Some(p) => p,
        None => {
            return Err(DecodeError::UnknownField(alias));
        },
    };
    match f.classify() {
        Classification::Collection(u) => {
            let name = element_name_of(u);
            let k = match find_model(tables, &name) {
                Some(k) => k,
                None => {
                    return Err(DecodeError::NoRowModel(name));
                },
            };
            proof {
                lemma_first_index(model_keys(tables@), name@);
            }
            match decode_rows(&tables[k], param, padding) {
                Ok(rows) => Ok(Value::Rows(rows)),
                Err(e) => Err(e),
            }
        },
        Classification::Scalar => {
            let text = match param.text_content() {
                Ok(t) => t,
                Err(e) => {
                    return Err(e);
                },
            };
            Ok(Value::Text(trim_end(text.as_str())))
        },
    }
}

pub(crate) proof fn lemma_result_err_extends(
    fields: Seq<Field>,
    tables: Seq<Model>,
    result: CallResult,
    padding: Padding,
    k: int,
    e: ErrorView,
)
    requires
        0 <= k <= fields.len(),
        result_spec(fields.take(k), tables, result, padding) == Err::<Seq<ValueView>, ErrorView>(e),
    ensures
        result_spec(fields, tables, result, padding) == Err::<Seq<ValueView>, ErrorView>(e),
    decreases fields.len() - k,
{
    if k < fields.len() {
        assert(fields.take(k + 1).drop_last() =~= fields.take(k));
        lemma_result_err_extends(fields, tables, result, padding, k + 1, e);
    } else {
        assert(fields.take(k) =~= fields);
    }
}

/// Decodes a whole call result with `model`, field by field in declaration
/// order. A collection field's rows decode with the table model registered
/// under its element type's name, their column values treated by `padding`.
/// Either every field decodes, or the first field that fails gives the error.
pub fn decode_result(
    model: &Model,
    tables: &Vec<Model>,
    result: &CallResult,
    padding: Padding,
) -> (r: Result<Vec<Value>, DecodeError>)
    ensures
        match result_spec(model.fields@, tables@, *result, padding) {
            Ok(v) => r is Ok && values_view(r->Ok_0@) == v,
            Err(e) => r is Err && r->Err_0@ == e,
        },
{
    let fields = &model.fields;
    let mut out: Vec<Value> = Vec::new();
    let mut i: usize = 0;
    proof {
        assert(fields@.take(0) =~= seq![]);
        assert(values_view(out@) =~= seq![]);
    }
    while i < fields.len()
        invariant
            i <= fields@.len(),
            fields@ == model.fields@,
            result_spec(fields@.take(i as int), tables@, *result, padding) == Ok::<
                Seq<ValueView>,
                ErrorView,
            >(values_view(out@)),
        decreases fields@.len() - i,
    {
        proof {
            assert(fields@.take(i + 1).drop_last() =~= fields@.take(i as int));
        }
        match decode_field(&fields[i], tables, result, padding) {
            Ok(v) => {
                let ghost pre = values_view(out@);
                out.push(v);
                proof {
                    assert(values_view(out@) =~= pre.push(v@));
                }
            },
            Err(e) => {
                proof {
                    lemma_result_err_extends(fields@, tables@, *result, padding, i as int + 1, e@);
                }
                return Err(e);
            },
        }
        i = i + 1;
    }
    proof {
        assert(fields@.take(i as int) =~= fields@);
    }
    Ok(out)
}

/// A record type that decodes from a whole call result.
pub trait FromMethod: Sized {
    fn from_method(method: &CallResult) -> Result<Self, DecodeError>;
}

/// A record type that decodes from one table row.
pub trait FromTable: Sized {
    fn from_table(row: &Row) -> Result<Self, DecodeError>;
}

} // verus!
