//! The model of a whole struct: its fields, in declaration order.
use vstd::prelude::*;
use crate::attr::{attrs_spec, AttrError, Span};
use crate::field::{resolve_spec, Field, FieldDecl};

verus! {

/// The field list of a declaration.
#[derive(Debug)]
pub enum ItemShape {
    /// `struct S { a: A, b: B }`
    Named(Vec<FieldDecl>),
    /// `struct S(A, B);`
    Unnamed(Vec<FieldDecl>),
    /// `struct S;`
    Unit,
    /// An enum or a union.
    NotStruct,
}

/// A type declaration that a decoder is derived for.
#[derive(Debug)]
pub struct ItemDecl {
    pub ident: String,
    pub shape: ItemShape,
}

/// The fields of a struct, one model per declared field, in order.
pub struct Model {
    pub ident: String,
    pub fields: Vec<Field>,
}

/// The declared fields; a shape without a field list has none.
pub open spec fn decls_of(shape: ItemShape) -> Seq<FieldDecl> {
    match shape {
        ItemShape::Named(v) => v@,
        ItemShape::Unnamed(v) => v@,
        _ => seq![],
    }
}

/// The first field whose annotations are malformed decides the error.
pub open spec fn decls_spec(decls: Seq<FieldDecl>) -> Result<(), AttrError>
    decreases decls.len(),
{
    if decls.len() == 0 {
        Ok(())
    } else {
        match decls_spec(decls.drop_last()) {
            Err(e) => Err(e),
            Ok(()) => match attrs_spec(decls.last().attrs@) {
                Ok(_) => Ok(()),
                Err(e) => Err(e),
            },
        }
    }
}

/// The directives of a declaration whose annotations parse.
pub open spec fn directives_of(d: FieldDecl) -> Seq<(Seq<char>, Span)> {
    attrs_spec(d.attrs@)->Ok_0
}

/// `f` is the model of the declaration `d` at position `i`.
pub open spec fn models_decl(f: Field, d: FieldDecl, i: int) -> bool {
    &&& f.ty == d.ty
    &&& f.ident == d.ident
    &&& f.index == i
    &&& attrs_spec(d.attrs@) is Ok
    &&& f.alias_spec() == resolve_spec(directives_of(d))
}

proof fn lemma_decls_err_extends(decls: Seq<FieldDecl>, k: int, e: AttrError)
    requires
        0 <= k <= decls.len(),
        decls_spec(decls.take(k)) == Err::<(), AttrError>(e),
    ensures
        decls_spec(decls) == Err::<(), AttrError>(e),
    decreases decls.len() - k,
{
    if k < decls.len() {
        assert(decls.take(k + 1).drop_last() =~= decls.take(k));
        lemma_decls_err_extends(decls, k + 1, e);
    } else {
        assert(decls.take(k) =~= decls);
    }
}

/// Builds the field models of `decls` in order; the first field that fails
/// is the error.
pub fn fields_from_item_data(decls: Option<Vec<FieldDecl>>) -> (r: Result<Vec<Field>, AttrError>)
    ensures
        ({
            let ds = match decls {
                Some(v) => v@,
                None => seq![],
            };
            match decls_spec(ds) {
                Ok(()) => r is Ok && r->Ok_0@.len() == ds.len() && forall|i: int|
                    0 <= i < ds.len() ==> models_decl(#[trigger] r->Ok_0@[i], ds[i], i),
                Err(e) => r == Err::<Vec<Field>, AttrError>(e),
            }
        }),
{
    let mut rest = match decls {
        Some(v) => v,
        None => {
            return Ok(Vec::new());
        },
    };
    let ghost ds = rest@;
    let n = rest.len();
    let mut out: Vec<Field> = Vec::new();
    let mut i: usize = 0;
    proof {
        assert(ds.take(0) =~= seq![]);
        assert(ds.skip(0) =~= ds);
    }
    while rest.len() > 0
        invariant
            i <= ds.len(),
            ds.len() == n,
            decls is Some && ds == decls->Some_0@,
            rest@ == ds.skip(i as int),
            out@.len() == i,
            decls_spec(ds.take(i as int)) == Ok::<(), AttrError>(()),
            forall|j: int| 0 <= j < i ==> models_decl(#[trigger] out@[j], ds[j], j),
        decreases rest@.len(),
    {
        proof {
            assert(ds.take(i + 1).drop_last() =~= ds.take(i as int));
            assert(ds[i as int] == rest@[0]);
        }
        let d = rest.remove(0);
        proof {
            assert(rest@ =~= ds.skip(i + 1));
        }
        let ghost dg = d;
        match Field::from_struct_field(d, i) {
            Ok(f) => {
                out.push(f);
            },
            Err(e) => {
                proof {
                    assert(ds.take(i + 1).last() == dg);
                    lemma_decls_err_extends(ds, i + 1, e);
                }
                return Err(e);
            },
        }
        i = i + 1;
    }
    proof {
        assert(ds.take(i as int) =~= ds);
    }
    Ok(out)
}

impl Model {
    /// Builds the model of a declaration. A struct's fields are modelled in
    /// order; any other shape gives an empty field list.
    pub fn from_item(item: ItemDecl) -> (r: Result<Model, AttrError>)
        ensures
            match decls_spec(decls_of(item.shape)) {
                Ok(()) => r is Ok && r->Ok_0.ident == item.ident && r->Ok_0.fields@.len()
                    == decls_of(item.shape).len() && forall|i: int|
                    0 <= i < decls_of(item.shape).len() ==> models_decl(
                        #[trigger] r->Ok_0.fields@[i],
                        decls_of(item.shape)[i],
                        i,
                    ),
                Err(e) => r == Err::<Model, AttrError>(e),
            },
    {
        let ItemDecl { ident, shape } = item;
        let decls = match shape {
            ItemShape::Named(v) => Some(v),
            ItemShape::Unnamed(v) => Some(v),
            _ => None,
        };
        match fields_from_item_data(decls) {
            Ok(fields) => Ok(Model { ident, fields }),
            Err(e) => Err(e),
        }
    }

    /// The field models, in declaration order.
    pub fn fields(&self) -> (r: &[Field])
        ensures
            r@ == self.fields@,
    {
        self.fields.as_slice()
    }
}

} // verus!
