//! Properties of the decoders, stated over their specifications.
use vstd::prelude::*;
use crate::decode::{
    element_name, field_spec, lemma_result_err_extends, model_keys, row_spec, rows_spec,
    result_spec, table_spec, Padding, ValueView,
};
use crate::field::{element_spec, Field};
use crate::lookup::{first_index, lemma_first_index};
use crate::model::Model;
use crate::params::{param_keys, CallResult, ErrorView, Parameter, Row};
use crate::text::trim_end_spec;

verus! {

/// No two parameters of the result share a name.
pub open spec fn unique_names(result: CallResult) -> bool {
    forall|i: int, j: int|
        0 <= i < result.params@.len() && 0 <= j < result.params@.len() && i != j
            ==> result.params@[i].name@ != result.params@[j].name@
}

/// Some parameter of the result is named `name`.
pub open spec fn has_param(result: CallResult, name: Seq<char>) -> bool {
    exists|p: int| 0 <= p < result.params@.len() && result.params@[p].name@ == name
}

/// Every parameter of the result is a text value.
pub open spec fn all_text(result: CallResult) -> bool {
    forall|p: int| 0 <= p < result.params@.len() ==> result.params@[p].data is Text
}

/// Every field is read as a scalar.
pub open spec fn all_scalar(fields: Seq<Field>) -> bool {
    forall|k: int| 0 <= k < fields.len() ==> element_spec(#[trigger] fields[k].ty) is None
}

proof fn lemma_find_unique(result: CallResult, name: Seq<char>, p: int)
    requires
        unique_names(result),
        0 <= p < result.params@.len(),
        result.params@[p].name@ == name,
    ensures
        first_index(param_keys(result.params@), name) == Some(p),
{
    let keys = param_keys(result.params@);
    lemma_first_index(keys, name);
    assert(keys[p] == name);
}

proof fn lemma_find_none(result: CallResult, name: Seq<char>)
    requires
        !has_param(result, name),
    ensures
        first_index(param_keys(result.params@), name) is None,
{
    let keys = param_keys(result.params@);
    lemma_first_index(keys, name);
    if first_index(keys, name) is Some {
        let p = first_index(keys, name)->Some_0;
        assert(result.params@[p].name@ == name);
    }
}

/// A scalar field whose alias names a text parameter decodes to that text
/// without its trailing padding.
pub proof fn lemma_scalar_field(
    f: Field,
    tables: Seq<Model>,
    result: CallResult,
    padding: Padding,
    p: int,
)
    requires
        unique_names(result),
        element_spec(f.ty) is None,
        0 <= p < result.params@.len(),
        result.params@[p].name@ == f.alias_view(),
        result.params@[p].data is Text,
    ensures
        field_spec(f, tables, result, padding) == Ok::<ValueView, ErrorView>(
            ValueView::Text(trim_end_spec(result.params@[p].data->Text_0@)),
        ),
{
    lemma_find_unique(result, f.alias_view(), p);
}

/// Decoding a result whose parameters are exactly the text values named by
/// scalar fields' aliases succeeds, and each field holds the text of the
/// parameter named by its alias, without trailing padding: where that
/// parameter stands in the result plays no part.
pub proof fn lemma_decode_by_alias(
    fields: Seq<Field>,
    tables: Seq<Model>,
    result: CallResult,
    padding: Padding,
)
    requires
        all_scalar(fields),
        unique_names(result),
        all_text(result),
        forall|k: int| 0 <= k < fields.len() ==> has_param(result, #[trigger] fields[k].alias_view()),
    ensures
        result_spec(fields, tables, result, padding) is Ok,
        result_spec(fields, tables, result, padding)->Ok_0.len() == fields.len(),
        forall|k: int, p: int|
            0 <= k < fields.len() && 0 <= p < result.params@.len() && result.params@[p].name@
                == fields[k].alias_view() ==> result_spec(fields, tables, result, padding)->Ok_0[k]
                == ValueView::Text(trim_end_spec(result.params@[p].data->Text_0@)),
    decreases fields.len(),
{
    if fields.len() > 0 {
        let pre = fields.drop_last();
        assert forall|k: int| 0 <= k < pre.len() implies element_spec(#[trigger] pre[k].ty) is None by {
            assert(pre[k] == fields[k]);
        }
        assert forall|k: int| 0 <= k < pre.len() implies has_param(result, #[trigger] pre[k].alias_view()) by {
            assert(pre[k] == fields[k]);
        }
        lemma_decode_by_alias(pre, tables, result, padding);
        let last = fields.last();
        assert(element_spec(fields[fields.len() - 1].ty) is None);
        assert(has_param(result, fields[fields.len() - 1].alias_view()));
        let p = choose|p: int| 0 <= p < result.params@.len() && result.params@[p].name@ == last.alias_view();
        lemma_scalar_field(last, tables, result, padding, p);
        assert forall|k: int, q: int|
            0 <= k < fields.len() && 0 <= q < result.params@.len() && result.params@[q].name@
                == fields[k].alias_view() implies result_spec(fields, tables, result, padding)->Ok_0[k]
                == ValueView::Text(trim_end_spec(result.params@[q].data->Text_0@)) by {
            if k < fields.len() - 1 {
                assert(pre[k] == fields[k]);
            } else {
                assert(q == p);
            }
        }
    }
}

/// When every other alias names a text parameter and alias `m` names none,
/// decoding fails with `UnknownField` of alias `m`.
pub proof fn lemma_missing_alias(
    fields: Seq<Field>,
    tables: Seq<Model>,
    result: CallResult,
    padding: Padding,
    m: int,
)
    requires
        0 <= m < fields.len(),
        all_scalar(fields),
        unique_names(result),
        all_text(result),
        forall|k: int| 0 <= k < fields.len() && k != m ==> has_param(result, #[trigger] fields[k].alias_view()),
        !has_param(result, fields[m].alias_view()),
    ensures
        result_spec(fields, tables, result, padding) == Err::<Seq<ValueView>, ErrorView>(
            ErrorView::UnknownField(fields[m].alias_view()),
        ),
    decreases fields.len(),
{
    let pre = fields.drop_last();
    let last = fields.last();
    if m < fields.len() - 1 {
        assert forall|k: int| 0 <= k < pre.len() implies element_spec(#[trigger] pre[k].ty) is None by {
            assert(pre[k] == fields[k]);
        }
        assert forall|k: int| 0 <= k < pre.len() && k != m implies has_param(result, #[trigger] pre[k].alias_view()) by {
            assert(pre[k] == fields[k]);
        }
        assert(pre[m] == fields[m]);
        lemma_missing_alias(pre, tables, result, padding, m);
    } else {
        assert forall|k: int| 0 <= k < pre.len() implies element_spec(#[trigger] pre[k].ty) is None by {
            assert(pre[k] == fields[k]);
        }
        assert forall|k: int| 0 <= k < pre.len() implies has_param(result, #[trigger] pre[k].alias_view()) by {
            assert(pre[k] == fields[k]);
        }
        lemma_decode_by_alias(pre, tables, result, padding);
        lemma_find_none(result, last.alias_view());
    }
}

/// A field without an alias directive reads the empty name, so it never
/// matches a result whose parameters all have non-empty names.
pub proof fn lemma_unaliased_field(
    f: Field,
    tables: Seq<Model>,
    result: CallResult,
    padding: Padding,
)
    requires
        f.alias_spec() is None,
        forall|p: int| 0 <= p < result.params@.len() ==> (#[trigger] result.params@[p]).name@.len() > 0,
    ensures
        field_spec(f, tables, result, padding) == Err::<ValueView, ErrorView>(
            ErrorView::UnknownField(Seq::<char>::empty()),
        ),
{
    assert(f.alias_view() =~= Seq::<char>::empty());
    if has_param(result, f.alias_view()) {
        let p = choose|p: int| 0 <= p < result.params@.len() && result.params@[p].name@ == f.alias_view();
        assert(result.params@[p].name@.len() > 0);
    }
    lemma_find_none(result, f.alias_view());
}

/// Each parameter of `r1` stands somewhere in `r2`.
pub open spec fn params_within(r1: CallResult, r2: CallResult) -> bool {
    forall|p: int|
        0 <= p < r1.params@.len() ==> exists|q: int|
            0 <= q < r2.params@.len() && r2.params@[q] == #[trigger] r1.params@[p]
}

proof fn lemma_same_field(
    f: Field,
    tables: Seq<Model>,
    r1: CallResult,
    r2: CallResult,
    padding: Padding,
)
    requires
        unique_names(r1),
        unique_names(r2),
        params_within(r1, r2),
        params_within(r2, r1),
    ensures
        field_spec(f, tables, r1, padding) == field_spec(f, tables, r2, padding),
{
    let a = f.alias_view();
    lemma_first_index(param_keys(r1.params@), a);
    lemma_first_index(param_keys(r2.params@), a);
    match first_index(param_keys(r1.params@), a) {
        Some(p) => {
            assert(param_keys(r1.params@)[p] == a);
            let q = choose|q: int| 0 <= q < r2.params@.len() && r2.params@[q] == r1.params@[p];
            lemma_find_unique(r2, a, q);
        },
        None => {
            if first_index(param_keys(r2.params@), a) is Some {
                let q = first_index(param_keys(r2.params@), a)->Some_0;
                assert(param_keys(r2.params@)[q] == a);
                let p = choose|p: int| 0 <= p < r1.params@.len() && r1.params@[p] == r2.params@[q];
                assert(param_keys(r1.params@)[p] == a);
            }
        },
    }
}

/// Two results that hold the same parameters, in whatever order, decode to
/// the same values or fail with the same error: lookup goes by name only.
pub proof fn lemma_decode_order_independent(
    fields: Seq<Field>,
    tables: Seq<Model>,
    r1: CallResult,
    r2: CallResult,
    padding: Padding,
)
    requires
        unique_names(r1),
        unique_names(r2),
        params_within(r1, r2),
        params_within(r2, r1),
    ensures
        result_spec(fields, tables, r1, padding) == result_spec(fields, tables, r2, padding),
    decreases fields.len(),
{
    if fields.len() > 0 {
        lemma_decode_order_independent(fields.drop_last(), tables, r1, r2, padding);
        lemma_same_field(fields.last(), tables, r1, r2, padding);
    }
}

/// A collection parameter with no rows decodes to the empty sequence.
pub proof fn lemma_empty_table(fields: Seq<Field>, param: Parameter, padding: Padding)
    requires
        param.data is Table,
        param.data->Table_0@.len() == 0,
    ensures
        rows_spec(fields, param, padding) == Ok::<Seq<Seq<Seq<char>>>, ErrorView>(seq![]),
{
}

proof fn lemma_table_seq(fields: Seq<Field>, rows: Seq<Row>, padding: Padding)
    ensures
        (table_spec(fields, rows, padding) is Ok) <==> (forall|i: int|
            0 <= i < rows.len() ==> row_spec(fields, #[trigger] rows[i], padding) is Ok),
        table_spec(fields, rows, padding) is Ok ==> table_spec(fields, rows, padding)->Ok_0.len()
            == rows.len() && forall|i: int|
            0 <= i < rows.len() ==> table_spec(fields, rows, padding)->Ok_0[i] == row_spec(
                fields,
                #[trigger] rows[i],
                padding,
            )->Ok_0,
        table_spec(fields, rows, padding) is Err ==> exists|j: int|
            0 <= j < rows.len() && row_spec(fields, #[trigger] rows[j], padding) == Err::<
                Seq<Seq<char>>,
                ErrorView,
            >(table_spec(fields, rows, padding)->Err_0) && forall|i: int|
                0 <= i < j ==> row_spec(fields, #[trigger] rows[i], padding) is Ok,
    decreases rows.len(),
{
    if rows.len() > 0 {
        let pre = rows.drop_last();
        lemma_table_seq(fields, pre, padding);
        assert forall|i: int| 0 <= i < pre.len() implies pre[i] == rows[i] by {}
        let n = rows.len() - 1;
        if table_spec(fields, pre, padding) is Err {
            let j = choose|j: int|
                0 <= j < pre.len() && row_spec(fields, #[trigger] pre[j], padding) == Err::<
                    Seq<Seq<char>>,
                    ErrorView,
                >(table_spec(fields, pre, padding)->Err_0) && forall|i: int|
                    0 <= i < j ==> row_spec(fields, #[trigger] pre[i], padding) is Ok;
            assert(rows[j] == pre[j]);
            assert forall|i: int| 0 <= i < j implies row_spec(fields, #[trigger] rows[i], padding) is Ok by {
                assert(rows[i] == pre[i]);
            }
        } else if row_spec(fields, rows[n], padding) is Err {
            assert forall|i: int| 0 <= i < n implies row_spec(fields, #[trigger] rows[i], padding) is Ok by {
                assert(rows[i] == pre[i]);
            }
        }
    }
}

/// A collection parameter with `K` rows decodes to exactly `K` rows, row `i`
/// decoded from table row `i`; it fails exactly when some row fails, and
/// then with the error of the first row that fails.
pub proof fn lemma_table_rows(fields: Seq<Field>, param: Parameter, padding: Padding)
    requires
        param.data is Table,
    ensures
        ({
            let rows = param.data->Table_0@;
            let r = rows_spec(fields, param, padding);
            &&& (r is Ok <==> forall|i: int|
                0 <= i < rows.len() ==> row_spec(fields, #[trigger] rows[i], padding) is Ok)
            &&& r is Ok ==> r->Ok_0.len() == rows.len() && forall|i: int|
                0 <= i < rows.len() ==> r->Ok_0[i] == row_spec(fields, #[trigger] rows[i], padding)->Ok_0
            &&& r is Err ==> exists|j: int|
                0 <= j < rows.len() && row_spec(fields, #[trigger] rows[j], padding) == Err::<
                    Seq<Seq<char>>,
                    ErrorView,
                >(r->Err_0) && forall|i: int|
                    0 <= i < j ==> row_spec(fields, #[trigger] rows[i], padding) is Ok
        }),
{
    lemma_table_seq(fields, param.data->Table_0@, padding);
}

/// When the fields before a collection field decode, and a row of that
/// field's table fails, the whole decode fails with the error of the first
/// row that fails: no later field is read and no partial record is made.
pub proof fn lemma_row_failure_aborts(
    fields: Seq<Field>,
    tables: Seq<Model>,
    result: CallResult,
    padding: Padding,
    k: int,
    p: int,
    m: int,
)
    requires
        0 <= k < fields.len(),
        result_spec(fields.take(k), tables, result, padding) is Ok,
        unique_names(result),
        0 <= p < result.params@.len(),
        result.params@[p].name@ == fields[k].alias_view(),
        result.params@[p].data is Table,
        element_spec(fields[k].ty) is Some,
        first_index(model_keys(tables), element_name(element_spec(fields[k].ty)->Some_0)) == Some(
            m,
        ),
        rows_spec(tables[m].fields@, result.params@[p], padding) is Err,
    ensures
        ({
            let e = rows_spec(tables[m].fields@, result.params@[p], padding)->Err_0;
            let rows = result.params@[p].data->Table_0@;
            &&& result_spec(fields, tables, result, padding) == Err::<Seq<ValueView>, ErrorView>(e)
            &&& exists|j: int|
                0 <= j < rows.len() && row_spec(tables[m].fields@, #[trigger] rows[j], padding)
                    == Err::<Seq<Seq<char>>, ErrorView>(e) && forall|i: int|
                    0 <= i < j ==> row_spec(tables[m].fields@, #[trigger] rows[i], padding) is Ok
        }),
{
    let e = rows_spec(tables[m].fields@, result.params@[p], padding)->Err_0;
    lemma_find_unique(result, fields[k].alias_view(), p);
    assert(field_spec(fields[k], tables, result, padding) == Err::<ValueView, ErrorView>(e));
    assert(fields.take(k + 1).drop_last() =~= fields.take(k));
    assert(fields.take(k + 1).last() == fields[k]);
    lemma_result_err_extends(fields, tables, result, padding, k + 1, e);
    lemma_table_rows(tables[m].fields@, result.params@[p], padding);
}

} // verus!
