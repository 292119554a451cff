//! One declared field: its type's classification and its resolved alias.
use vstd::prelude::*;
use crate::attr::{
    attrs_spec, parse_attributes, AttrError, Attribute, AttributeSpanWrapper, FieldAttr, Span,
};

verus! {

/// The shape of a declared type, as far as classification reads it.
#[derive(Debug)]
pub enum TypeExpr {
    /// A path such as `std::vec::Vec<User>`, by its segments.
    Path(Vec<PathSegment>),
    /// Any other type (reference, tuple, array, ...), by its source text.
    Other(String),
}

#[derive(Debug)]
pub struct PathSegment {
    pub ident: String,
    /// The angle-bracketed arguments of the segment, empty if it has none.
    pub args: Vec<GenericArg>,
}

#[derive(Debug)]
pub enum GenericArg {
    Type(TypeExpr),
    /// A lifetime, constant or binding, by its source text.
    Other(String),
}

/// A field as declared: its name (none in a tuple struct), its type and its
/// annotations.
#[derive(Debug)]
pub struct FieldDecl {
    pub ident: Option<String>,
    pub ty: TypeExpr,
    pub attrs: Vec<Attribute>,
}

/// How a field is read from a call result.
pub enum Classification<'a> {
    /// A single text value.
    Scalar,
    /// A table whose rows decode into the element type.
    Collection(&'a TypeExpr),
}

/// The model of one declared field.
pub struct Field {
    pub index: usize,
    pub ty: TypeExpr,
    pub ident: Option<String>,
    pub alias: Option<AttributeSpanWrapper<String>>,
}

/// The name of the repeating container.
pub open spec fn vec_name() -> Seq<char> {
    seq!['V', 'e', 'c']
}

/// The last identifier of a path type.
pub open spec fn last_ident(t: TypeExpr) -> Option<Seq<char>> {
    match t {
        TypeExpr::Path(segs) => if segs@.len() > 0 {
            Some(segs@.last().ident@)
        } else {
            None
        },
        TypeExpr::Other(_) => None,
    }
}

/// The first generic argument of a `Vec` type, if it is a type.
pub open spec fn inner_type_spec(t: TypeExpr) -> Option<TypeExpr> {
    match t {
        TypeExpr::Path(segs) => if segs@.len() > 0 && segs@.last().ident@ == vec_name()
            && segs@.last().args@.len() > 0 {
            match segs@.last().args@[0] {
                GenericArg::Type(u) => Some(u),
                GenericArg::Other(_) => None,
            }
        } else {
            None
        },
        TypeExpr::Other(_) => None,
    }
}

/// The element type when `t` is a collection: `Vec` with exactly one
/// argument, a type that is not itself a `Vec`. Every other type is scalar.
pub open spec fn element_spec(t: TypeExpr) -> Option<TypeExpr> {
    match t {
        TypeExpr::Path(segs) => if segs@.len() > 0 && segs@.last().args@.len() == 1 {
            match inner_type_spec(t) {
                Some(u) => if last_ident(u) == Some(vec_name()) {
                    None
                } else {
                    Some(u)
                },
                None => None,
            }
        } else {
            None
        },
        TypeExpr::Other(_) => None,
    }
}

/// The last alias directive wins; none gives no alias.
pub open spec fn resolve_spec(d: Seq<(Seq<char>, Span)>) -> Option<(Seq<char>, Span)> {
    if d.len() == 0 {
        None
    } else {
        Some(d.last())
    }
}

impl Field {
    pub open spec fn index_spec(&self) -> usize {
        self.index
    }

    /// The alias directive in effect, with the span of its annotation.
    pub open spec fn alias_spec(&self) -> Option<(Seq<char>, Span)> {
        match self.alias {
            Some(w) => Some((w.item@, w.attribute_span)),
            None => None,
        }
    }

    /// The external name the field is looked up by: the alias, or the empty
    /// name when no alias was given.
    pub open spec fn alias_view(&self) -> Seq<char> {
        match self.alias_spec() {
            Some(a) => a.0,
            None => seq![],
        }
    }

    /// Builds the model of the field at position `index` of its struct.
    pub fn from_struct_field(field: FieldDecl, index: usize) -> (r: Result<Field, AttrError>)
        ensures
            match attrs_spec(field.attrs@) {
                Ok(d) => r is Ok && r->Ok_0.ty == field.ty && r->Ok_0.ident == field.ident
                    && r->Ok_0.index_spec() == index && r->Ok_0.alias_spec() == resolve_spec(d),
                Err(e) => r == Err::<Field, AttrError>(e),
            },
    {
        let FieldDecl { ident, ty, attrs } = field;
        let directives = match parse_attributes(&attrs) {
            Ok(d) => d,
            Err(e) => {
                return Err(e);
            },
        };
        let n = directives.len();
        let alias = if n == 0 {
            None
        } else {
            let w = &directives[n - 1];
            match &w.item {
                FieldAttr::Alias(v) => Some(
                    AttributeSpanWrapper { item: v.clone(), attribute_span: w.attribute_span },
                ),
            }
        };
        Ok(Field { index, ty, ident, alias })
    }

    /// The position of the field in its struct.
    pub fn index(&self) -> (r: usize)
        ensures
            r == self.index_spec(),
    {
        self.index
    }

    /// Whether the field's type is a path whose last identifier is `wanted`.
    pub fn is_type(&self, wanted: &str) -> (r: bool)
        ensures
            r == (last_ident(self.ty) == Some(wanted@)),
    {
        match &self.ty {
            TypeExpr::Path(segs) => {
                if segs.len() == 0 {
                    return false;
                }
                let name = String::from_str(wanted);
                segs[segs.len() - 1].ident == name
            },
            TypeExpr::Other(_) => false,
        }
    }

    /// The first generic argument of a `Vec` field, if it is a type.
    pub fn inner_type(&self) -> (r: Option<&TypeExpr>)
        ensures
            match r {
                Some(u) => inner_type_spec(self.ty) == Some(*u),
                None => inner_type_spec(self.ty) is None,
            },
    {
        match &self.ty {
            TypeExpr::Path(segs) => {
                if segs.len() == 0 {
                    return None;
                }
                let last = &segs[segs.len() - 1];
                let vec = String::from_str("Vec");
                proof {
                    reveal_strlit("Vec");
                    assert(vec@ =~= vec_name());
                }
                if last.ident != vec || last.args.len() == 0 {
                    return None;
                }
                match &last.args[0] {
                    GenericArg::Type(u) => Some(u),
                    GenericArg::Other(_) => None,
                }
            },
            TypeExpr::Other(_) => None,
        }
    }

    /// Scalar, or a collection with its element type.
    pub fn classify(&self) -> (r: Classification)
        ensures
            match r {
                Classification::Collection(u) => element_spec(self.ty) == Some(*u),
                Classification::Scalar => element_spec(self.ty) is None,
            },
    {
        let one_arg = match &self.ty {
            TypeExpr::Path(segs) => segs.len() > 0 && segs[segs.len() - 1].args.len() == 1,
            TypeExpr::Other(_) => false,
        };
        if !one_arg {
            return Classification::Scalar;
        }
        match self.inner_type() {
            Some(u) => {
                let nested = match u {
                    TypeExpr::Path(segs) => {
                        if segs.len() == 0 {
                            false
                        } else {
                            let vec = String::from_str("Vec");
                            proof {
                                reveal_strlit("Vec");
                                assert(vec@ =~= vec_name());
                            }
                            segs[segs.len() - 1].ident == vec
                        }
                    },
                    TypeExpr::Other(_) => false,
                };
                if nested {
                    Classification::Scalar
                } else {
                    Classification::Collection(u)
                }
            },
            None => Classification::Scalar,
        }
    }

    /// The resolved alias: the value of the last alias directive, or the
    /// empty string when there is none.
    pub fn alias_name(&self) -> (r: String)
        ensures
            r@ == self.alias_view(),
    {
        match &self.alias {
            Some(w) => w.item.clone(),
            None => String::new(),
        }
    }
}

} // verus!
