use rfc_mapping::{
    fields_from_item_data, AttrErrorKind, Attribute, Classification, Field, FieldDecl, GenericArg,
    ItemDecl, ItemShape, Model, PathSegment, Span, Token, TokenKind, TypeExpr,
};

fn sp(start: usize) -> Span {
    Span { start, end: start + 1 }
}

fn path(ident: &str, args: Vec<GenericArg>) -> TypeExpr {
    TypeExpr::Path(vec![PathSegment { ident: ident.to_string(), args }])
}

fn plain(ident: &str) -> TypeExpr {
    path(ident, vec![])
}

fn vec_of(inner: TypeExpr) -> TypeExpr {
    path("Vec", vec![GenericArg::Type(inner)])
}

fn alias_attr(value: &str, at: usize) -> Attribute {
    Attribute {
        path: "sap".to_string(),
        has_list: true,
        tokens: vec![
            Token { kind: TokenKind::Ident("alias".to_string()), span: sp(at) },
            Token { kind: TokenKind::Punct('='), span: sp(at + 1) },
            Token { kind: TokenKind::Str(value.to_string()), span: sp(at + 2) },
        ],
        span: Span { start: at, end: at + 3 },
    }
}

fn decl(name: &str, ty: TypeExpr, attrs: Vec<Attribute>) -> FieldDecl {
    FieldDecl { ident: Some(name.to_string()), ty, attrs }
}

fn field(ty: TypeExpr) -> Field {
    Field::from_struct_field(decl("f", ty, vec![]), 0).unwrap()
}

fn element_ident(f: &Field) -> Option<String> {
    match f.classify() {
        Classification::Collection(TypeExpr::Path(segs)) => Some(segs[segs.len() - 1].ident.clone()),
        Classification::Collection(TypeExpr::Other(s)) => Some(s.clone()),
        Classification::Scalar => None,
    }
}

#[test]
fn alias_resolves_to_directive_value() {
    let f = Field::from_struct_field(decl("user_name", plain("String"), vec![alias_attr("WA", 0)]), 3)
        .unwrap();
    assert_eq!(f.alias_name(), "WA");
    assert_eq!(f.index(), 3);
    assert_eq!(f.ident, Some("user_name".to_string()));
    assert_eq!(f.alias.as_ref().unwrap().attribute_span, Span { start: 0, end: 3 });
}

#[test]
fn last_alias_directive_wins() {
    let f = Field::from_struct_field(
        decl("x", plain("String"), vec![alias_attr("FIRST", 0), alias_attr("LAST", 10)]),
        0,
    )
    .unwrap();
    assert_eq!(f.alias_name(), "LAST");
}

#[test]
fn missing_alias_resolves_to_empty() {
    let f = Field::from_struct_field(decl("ev_type", plain("String"), vec![]), 0).unwrap();
    assert_eq!(f.alias_name(), "");
    assert!(f.alias.is_none());
}

#[test]
fn malformed_annotation_fails_field() {
    let bad = Attribute {
        path: "sap".to_string(),
        has_list: true,
        tokens: vec![Token { kind: TokenKind::Ident("alias".to_string()), span: sp(0) }],
        span: Span { start: 7, end: 9 },
    };
    let e = Field::from_struct_field(decl("x", plain("String"), vec![bad]), 0).err().unwrap();
    assert_eq!(e.kind, AttrErrorKind::UnexpectedEnd);
    assert_eq!(e.span, Span { start: 7, end: 9 });
}

#[test]
fn vec_of_record_is_a_collection() {
    let f = field(vec_of(plain("User")));
    assert!(f.is_type("Vec"));
    assert_eq!(element_ident(&f), Some("User".to_string()));
    assert!(matches!(f.inner_type(), Some(TypeExpr::Path(_))));
}

#[test]
fn qualified_vec_path_is_a_collection() {
    let ty = TypeExpr::Path(vec![
        PathSegment { ident: "std".to_string(), args: vec![] },
        PathSegment { ident: "vec".to_string(), args: vec![] },
        PathSegment { ident: "Vec".to_string(), args: vec![GenericArg::Type(plain("Row"))] },
    ]);
    assert_eq!(element_ident(&field(ty)), Some("Row".to_string()));
}

#[test]
fn text_field_is_scalar() {
    let f = field(plain("String"));
    assert!(f.is_type("String"));
    assert!(!f.is_type("Vec"));
    assert!(f.inner_type().is_none());
    assert_eq!(element_ident(&f), None);
}

#[test]
fn nested_collection_is_scalar() {
    let f = field(vec_of(vec_of(plain("User"))));
    assert!(f.is_type("Vec"));
    assert!(f.inner_type().is_some());
    assert_eq!(element_ident(&f), None);
}

#[test]
fn vec_with_two_arguments_is_scalar() {
    let f = field(path("Vec", vec![GenericArg::Type(plain("User")), GenericArg::Type(plain("A"))]));
    assert_eq!(element_ident(&f), None);
}

#[test]
fn vec_without_type_argument_is_scalar() {
    let f = field(path("Vec", vec![GenericArg::Other("'a".to_string())]));
    assert!(f.inner_type().is_none());
    assert_eq!(element_ident(&f), None);
    let g = field(TypeExpr::Other("&str".to_string()));
    assert!(!g.is_type("str"));
    assert_eq!(element_ident(&g), None);
}

#[test]
fn named_struct_keeps_declaration_order() {
    let item = ItemDecl {
        ident: "SimpleResult".to_string(),
        shape: ItemShape::Named(vec![
            decl("ev_ebeln", plain("String"), vec![alias_attr("EV_EBELN", 0)]),
            decl("ev_type", plain("String"), vec![alias_attr("EV_TYPE", 10)]),
            decl("et_data", vec_of(plain("Field")), vec![alias_attr("CT_DATA", 20)]),
        ]),
    };
    let m = Model::from_item(item).ok().unwrap();
    assert_eq!(m.ident, "SimpleResult");
    let aliases: Vec<String> = m.fields().iter().map(|f| f.alias_name()).collect();
    assert_eq!(aliases, vec!["EV_EBELN", "EV_TYPE", "CT_DATA"]);
    let indexes: Vec<usize> = m.fields().iter().map(|f| f.index()).collect();
    assert_eq!(indexes, vec![0, 1, 2]);
    assert_eq!(element_ident(&m.fields()[2]), Some("Field".to_string()));
}

#[test]
fn tuple_struct_fields_are_modelled() {
    let item = ItemDecl {
        ident: "Pair".to_string(),
        shape: ItemShape::Unnamed(vec![
            FieldDecl { ident: None, ty: plain("String"), attrs: vec![alias_attr("A", 0)] },
            FieldDecl { ident: None, ty: plain("String"), attrs: vec![alias_attr("B", 5)] },
        ]),
    };
    let m = Model::from_item(item).ok().unwrap();
    assert_eq!(m.fields().len(), 2);
    assert_eq!(m.fields()[1].alias_name(), "B");
    assert!(m.fields()[0].ident.is_none());
}

#[test]
fn shapes_without_field_list_give_no_fields() {
    for shape in [ItemShape::Unit, ItemShape::NotStruct] {
        let m = Model::from_item(ItemDecl { ident: "E".to_string(), shape }).ok().unwrap();
        assert!(m.fields().is_empty());
    }
    assert!(fields_from_item_data(None).ok().unwrap().is_empty());
}

#[test]
fn first_failing_field_is_the_error() {
    let unknown = Attribute {
        path: "sap".to_string(),
        has_list: true,
        tokens: vec![Token { kind: TokenKind::Ident("rename".to_string()), span: sp(40) }],
        span: sp(40),
    };
    let no_value = Attribute {
        path: "sap".to_string(),
        has_list: true,
        tokens: vec![Token { kind: TokenKind::Ident("alias".to_string()), span: sp(50) }],
        span: sp(50),
    };
    let decls = vec![
        decl("a", plain("String"), vec![alias_attr("A", 0)]),
        decl("b", plain("String"), vec![unknown]),
        decl("c", plain("String"), vec![no_value]),
    ];
    let e = fields_from_item_data(Some(decls)).err().unwrap();
    assert_eq!(e.kind, AttrErrorKind::UnknownKey("rename".to_string()));
    assert_eq!(e.span, sp(40));
}
