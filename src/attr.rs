//! Annotation parsing: `#[sap(alias = "NAME", ...)]` on a field.
//!
//! The arguments of an annotation are a comma-separated list of directives,
//! each `key = "literal"`, with an optional trailing comma. The only key is
//! `alias`; any other key is rejected.
use vstd::prelude::*;

verus! {

/// A location in the annotated source, as a range of offsets.
#[derive(Clone, Copy, Debug, PartialEq, Eq, Structural)]
pub struct Span {
    pub start: usize,
    pub end: usize,
}

/// One token of an annotation's argument list.
#[derive(Clone, Debug)]
pub enum TokenKind {
    Ident(String),
    Punct(char),
    /// A string literal, holding its value without quotes.
    Str(String),
    /// Any other token (number, group, lifetime), by its source text.
    Other(String),
}

#[derive(Clone, Debug)]
pub struct Token {
    pub kind: TokenKind,
    pub span: Span,
}

/// One annotation attached to a field: `#[path(tokens)]`.
#[derive(Clone, Debug)]
pub struct Attribute {
    pub path: String,
    /// Whether the annotation has an argument list; `#[path]` and
    /// `#[path = value]` have none.
    pub has_list: bool,
    /// The tokens of the argument list.
    pub tokens: Vec<Token>,
    pub span: Span,
}

/// A parsed item together with the span of the annotation it came from.
#[derive(Clone, Debug)]
pub struct AttributeSpanWrapper<T> {
    pub item: T,
    pub attribute_span: Span,
}

/// A recognised field directive.
#[derive(Clone, Debug)]
pub enum FieldAttr {
    Alias(String),
}

#[derive(Clone, Debug, PartialEq, Eq)]
pub enum AttrErrorKind {
    /// An annotation of the namespace without an argument list.
    MissingArgs,
    /// A directive does not start with an identifier, or there is none.
    ExpectedIdent,
    /// The key, given here, is not a known directive.
    UnknownKey(String),
    /// The argument list ends right after the key.
    UnexpectedEnd,
    /// The key is followed by something other than `=`.
    ExpectedEq,
    /// `=` is not followed by a string literal.
    ExpectedStr,
    /// A directive is followed by something other than `,`.
    ExpectedComma,
}

/// A malformed annotation, with the place where it went wrong.
#[derive(Clone, Debug, PartialEq, Eq)]
pub struct AttrError {
    pub kind: AttrErrorKind,
    pub span: Span,
}

/// The annotation namespace that holds field directives.
pub open spec fn namespace() -> Seq<char> {
    seq!['s', 'a', 'p']
}

/// The key of the alias directive.
pub open spec fn alias_key() -> Seq<char> {
    seq!['a', 'l', 'i', 'a', 's']
}

pub open spec fn is_punct_spec(t: Token, c: char) -> bool {
    match t.kind {
        TokenKind::Punct(p) => p == c,
        _ => false,
    }
}

pub open spec fn err(kind: AttrErrorKind, span: Span) -> AttrError {
    AttrError { kind, span }
}

/// The alias value of the directive that starts at token `i`; `end` locates
/// the end of the argument list.
pub open spec fn directive_spec(toks: Seq<Token>, i: int, end: Span) -> Result<Seq<char>, AttrError> {
    if i < 0 || i >= toks.len() {
        Err(err(AttrErrorKind::ExpectedIdent, end))
    } else {
    match toks[i].kind {
        TokenKind::Ident(name) => {
            if name@ != alias_key() {
                Err(err(AttrErrorKind::UnknownKey(name), toks[i].span))
            } else if i + 1 >= toks.len() {
                Err(err(AttrErrorKind::UnexpectedEnd, end))
            } else if !is_punct_spec(toks[i + 1], '=') {
                Err(err(AttrErrorKind::ExpectedEq, toks[i + 1].span))
            } else if i + 2 >= toks.len() {
                Err(err(AttrErrorKind::ExpectedStr, end))
            } else {
                match toks[i + 2].kind {
                    TokenKind::Str(v) => Ok(v@),
                    _ => Err(err(AttrErrorKind::ExpectedStr, toks[i + 2].span)),
                }
            }
        },
        _ => Err(err(AttrErrorKind::ExpectedIdent, toks[i].span)),
    }
    }
}

/// The directives of the argument list from token `i` on, each paired with
/// the annotation's span `end`.
pub open spec fn args_spec(toks: Seq<Token>, i: int, end: Span) -> Result<
    Seq<(Seq<char>, Span)>,
    AttrError,
>
    decreases toks.len() - i,
{
    if i < 0 || i >= toks.len() {
        Ok(seq![])
    } else {
        match directive_spec(toks, i, end) {
            Err(e) => Err(e),
            Ok(v) => {
                if i + 3 >= toks.len() {
                    Ok(seq![(v, end)])
                } else if is_punct_spec(toks[i + 3], ',') {
                    match args_spec(toks, i + 4, end) {
                        Ok(rest) => Ok(seq![(v, end)] + rest),
                        Err(e) => Err(e),
                    }
                } else {
                    Err(err(AttrErrorKind::ExpectedComma, toks[i + 3].span))
                }
            },
        }
    }
}

/// The directives of a field's annotations, in order: the annotations outside
/// the namespace are skipped, and the first malformed one fails the whole.
pub open spec fn attrs_spec(attrs: Seq<Attribute>) -> Result<Seq<(Seq<char>, Span)>, AttrError>
    decreases attrs.len(),
{
    if attrs.len() == 0 {
        Ok(seq![])
    } else {
        match attrs_spec(attrs.drop_last()) {
            Err(e) => Err(e),
            Ok(pre) => {
                let a = attrs.last();
                if a.path@ != namespace() {
                    Ok(pre)
                } else if !a.has_list {
                    Err(err(AttrErrorKind::MissingArgs, a.span))
                } else {
                    match args_spec(a.tokens@, 0, a.span) {
                        Ok(d) => Ok(pre + d),
                        Err(e) => Err(e),
                    }
                }
            },
        }
    }
}

pub open spec fn alias_of(f: FieldAttr) -> Seq<char> {
    match f {
        FieldAttr::Alias(s) => s@,
    }
}

/// The directives as (alias value, annotation span) pairs.
pub open spec fn directives_view(v: Seq<AttributeSpanWrapper<FieldAttr>>) -> Seq<(Seq<char>, Span)> {
    v.map_values(|w: AttributeSpanWrapper<FieldAttr>| (alias_of(w.item), w.attribute_span))
}

fn is_punct(t: &Token, c: char) -> (r: bool)
    ensures
        r == is_punct_spec(*t, c),
{
    match &t.kind {
        TokenKind::Punct(p) => *p == c,
        _ => false,
    }
}

/// Parses `= "literal"` after a directive key at token `i`.
pub fn parse_eq(toks: &Vec<Token>, i: usize, end: Span) -> (r: Result<String, AttrError>)
    ensures
        match r {
            Ok(v) => i + 1 < toks@.len() && is_punct_spec(toks@[i as int], '=') && toks@[i
                + 1].kind == TokenKind::Str(v),
            Err(e) => e == if i >= toks@.len() {
                err(AttrErrorKind::UnexpectedEnd, end)
            } else if !is_punct_spec(toks@[i as int], '=') {
                err(AttrErrorKind::ExpectedEq, toks@[i as int].span)
            } else if i + 1 >= toks@.len() {
                err(AttrErrorKind::ExpectedStr, end)
            } else {
                err(AttrErrorKind::ExpectedStr, toks@[i + 1].span)
            },
        },
        r is Err <==> !(i + 1 < toks@.len() && is_punct_spec(toks@[i as int], '=')
            && toks@[i + 1].kind is Str),
{
    if i >= toks.len() {
        return Err(AttrError { kind: AttrErrorKind::UnexpectedEnd, span: end });
    }
    if !is_punct(&toks[i], '=') {
        return Err(AttrError { kind: AttrErrorKind::ExpectedEq, span: toks[i].span });
    }
    if i + 1 >= toks.len() {
        return Err(AttrError { kind: AttrErrorKind::ExpectedStr, span: end });
    }
    match &toks[i + 1].kind {
        TokenKind::Str(v) => Ok(v.clone()),
        _ => Err(AttrError { kind: AttrErrorKind::ExpectedStr, span: toks[i + 1].span }),
    }
}

impl FieldAttr {
    /// Parses the directive that starts at token `i`.
    pub fn parse(toks: &Vec<Token>, i: usize, end: Span) -> (r: Result<FieldAttr, AttrError>)
        ensures
            match r {
                Ok(f) => directive_spec(toks@, i as int, end) == Ok::<Seq<char>, AttrError>(
                    alias_of(f),
                ),
                Err(e) => directive_spec(toks@, i as int, end) == Err::<Seq<char>, AttrError>(e),
            },
    {
        if i >= toks.len() {
            return Err(AttrError { kind: AttrErrorKind::ExpectedIdent, span: end });
        }
        match &toks[i].kind {
            TokenKind::Ident(name) => {
                let key = String::from_str("alias");
                proof {
                    reveal_strlit("alias");
                    assert(key@ =~= alias_key());
                }
                if *name == key {
                    match parse_eq(toks, i + 1, end) {
                        Ok(v) => Ok(FieldAttr::Alias(v)),
                        Err(e) => Err(e),
                    }
                } else {
                    Err(
                        AttrError {
                            kind: AttrErrorKind::UnknownKey(name.clone()),
                            span: toks[i].span,
                        },
                    )
                }
            },
            _ => Err(AttrError { kind: AttrErrorKind::ExpectedIdent, span: toks[i].span }),
        }
    }
}

/// Parses the argument list of one annotation, appending its directives to
/// `out`.
pub fn parse_args(attr: &Attribute, out: &mut Vec<AttributeSpanWrapper<FieldAttr>>) -> (r: Result<
    (),
    AttrError,
>)
    ensures
        match args_spec(attr.tokens@, 0, attr.span) {
            Ok(d) => r is Ok && directives_view(final(out)@) == directives_view(old(out)@) + d,
            Err(e) => r == Err::<(), AttrError>(e),
        },
{
    let toks = &attr.tokens;
    let end = attr.span;
    let ghost start = directives_view(out@);
    let mut i: usize = 0;
    while i < toks.len()
        invariant
            i <= toks@.len(),
            toks@ == attr.tokens@,
            end == attr.span,
            args_spec(toks@, 0, end) == match args_spec(toks@, i as int, end) {
                Ok(rest) => Ok(directives_view(out@).subrange(start.len() as int, directives_view(out@).len() as int) + rest),
                Err(e) => Err(e),
            },
            directives_view(out@).len() >= start.len(),
            directives_view(out@).subrange(0, start.len() as int) == start,
        decreases toks@.len() - i,
    {
        let ghost pre = directives_view(out@);
        let f = match FieldAttr::parse(toks, i, end) {
            Ok(f) => f,
            Err(e) => {
                return Err(e);
            },
        };
        out.push(AttributeSpanWrapper { item: f, attribute_span: end });
        proof {
            let now = directives_view(out@);
            assert(now =~= pre.push((alias_of(f), end)));
            assert(now.subrange(0, start.len() as int) =~= pre.subrange(0, start.len() as int));
            assert(now.subrange(start.len() as int, now.len() as int) =~= pre.subrange(
                start.len() as int,
                pre.len() as int,
            ).push((alias_of(f), end)));
        }
        let ghost sub = pre.subrange(start.len() as int, pre.len() as int);
        if toks.len() - i <= 3 {
            proof {
                let now = directives_view(out@);
                assert(now =~= start + now.subrange(start.len() as int, now.len() as int));
                let v = alias_of(f);
                assert(now.subrange(start.len() as int, now.len() as int) =~= sub + seq![(v, end)]);
                assert(args_spec(toks@, i as int, end) == Ok::<Seq<(Seq<char>, Span)>, AttrError>(seq![(v, end)]));
                assert(args_spec(toks@, toks@.len() as int, end) == Ok::<Seq<(Seq<char>, Span)>, AttrError>(seq![]));
                assert((sub + seq![(v, end)]) + seq![] =~= sub + seq![(v, end)]);
            }
            i = toks.len();
        } else if is_punct(&toks[i + 3], ',') {
            proof {
                let now = directives_view(out@);
                let v = alias_of(f);
                assert(now.subrange(start.len() as int, now.len() as int) =~= sub + seq![(v, end)]);
                match args_spec(toks@, i + 4, end) {
                    Ok(rest) => {
                        assert(sub + (seq![(v, end)] + rest) =~= (sub + seq![(v, end)]) + rest);
                    },
                    Err(e) => {},
                }
            }
            i = i + 4;
        } else {
            return Err(AttrError { kind: AttrErrorKind::ExpectedComma, span: toks[i + 3].span });
        }
    }
    proof {
        let now = directives_view(out@);
        assert(now =~= start + now.subrange(start.len() as int, now.len() as int));
    }
    Ok(())
}

/// Collects the directives of every annotation in the namespace, in order.
/// The first malformed annotation is the error.
pub fn parse_attributes(attrs: &Vec<Attribute>) -> (r: Result<
    Vec<AttributeSpanWrapper<FieldAttr>>,
    AttrError,
>)
    ensures
        match attrs_spec(attrs@) {
            Ok(d) => r is Ok && directives_view(r->Ok_0@) == d,
            Err(e) => r == Err::<Vec<AttributeSpanWrapper<FieldAttr>>, AttrError>(e),
        },
{
    let mut out: Vec<AttributeSpanWrapper<FieldAttr>> = Vec::new();
    let ns = String::from_str("sap");
    proof {
        reveal_strlit("sap");
        assert(ns@ =~= namespace());
        assert(attrs@.take(0) =~= seq![]);
        assert(directives_view(out@) =~= seq![]);
    }
    let mut i: usize = 0;
    while i < attrs.len()
        invariant
            i <= attrs@.len(),
            ns@ == namespace(),
            attrs_spec(attrs@.take(i as int)) == Ok::<Seq<(Seq<char>, Span)>, AttrError>(
                directives_view(out@),
            ),
        decreases attrs@.len() - i,
    {
        proof {
            assert(attrs@.take(i + 1).drop_last() =~= attrs@.take(i as int));
        }
        let a = &attrs[i];
        if a.path == ns {
            if !a.has_list {
                let e = AttrError { kind: AttrErrorKind::MissingArgs, span: a.span };
                proof {
                    lemma_attrs_err_extends(attrs@, i as int + 1, e);
                }
                return Err(e);
            }
            match parse_args(a, &mut out) {
                Ok(()) => {},
                Err(e) => {
                    proof {
                        lemma_attrs_err_extends(attrs@, i as int + 1, e);
                        assert(attrs@.take(attrs@.len() as int) =~= attrs@);
                    }
                    return Err(e);
                },
            }
        }
        i = i + 1;
    }
    proof {
        assert(attrs@.take(attrs@.len() as int) =~= attrs@);
    }
    Ok(out)
}

/// Once a prefix of the annotations fails, every longer prefix fails the same way.
proof fn lemma_attrs_err_extends(attrs: Seq<Attribute>, k: int, e: AttrError)
    requires
        0 <= k <= attrs.len(),
        attrs_spec(attrs.take(k)) == Err::<Seq<(Seq<char>, Span)>, AttrError>(e),
    ensures
        attrs_spec(attrs) == Err::<Seq<(Seq<char>, Span)>, AttrError>(e),
    decreases attrs.len() - k,
{
    if k < attrs.len() {
        assert(attrs.take(k + 1).drop_last() =~= attrs.take(k));
        lemma_attrs_err_extends(attrs, k + 1, e);
    } else {
        assert(attrs.take(k) =~= attrs);
    }
}

/// The corrective hint that follows a message on a malformed directive.
pub open spec fn help() -> Seq<char> {
    "\nhelp: The correct format looks like `#[sap(alias = \"EV_TYPE\")]`"@
}

/// The diagnostic text for each kind of malformed annotation.
pub open spec fn message_spec(kind: AttrErrorKind) -> Seq<char> {
    match kind {
        AttrErrorKind::MissingArgs => "expected attribute arguments in parentheses"@ + help(),
        AttrErrorKind::ExpectedIdent => "expected identifier"@ + help(),
        AttrErrorKind::UnknownKey(name) => "unknown directive `"@ + name@ + "`, expected `alias`"@
            + help(),
        AttrErrorKind::UnexpectedEnd => "unexpected end of input, expected `=`"@ + help(),
        AttrErrorKind::ExpectedEq => "expected `=`"@ + help(),
        AttrErrorKind::ExpectedStr => "expected string literal"@ + help(),
        AttrErrorKind::ExpectedComma => "expected `,`"@,
    }
}

fn with_help(text: &str) -> (r: String)
    ensures
        r@ == text@ + help(),
{
    let mut r = String::from_str(text);
    r.append("\nhelp: The correct format looks like `#[sap(alias = \"EV_TYPE\")]`");
    r
}

impl AttrError {
    /// A human-readable description; a malformed directive gets a hint that
    /// shows the correct form.
    pub fn message(&self) -> (r: String)
        ensures
            r@ == message_spec(self.kind),
    {
        match &self.kind {
            AttrErrorKind::MissingArgs => with_help("expected attribute arguments in parentheses"),
            AttrErrorKind::ExpectedIdent => with_help("expected identifier"),
            AttrErrorKind::UnknownKey(name) => {
                let mut text = String::from_str("unknown directive `");
                text.append(name.as_str());
                text.append("`, expected `alias`");
                let r = with_help(text.as_str());
                proof {
                    assert(r@ =~= "unknown directive `"@ + name@ + "`, expected `alias`"@ + help());
                }
                r
            },
            AttrErrorKind::UnexpectedEnd => with_help("unexpected end of input, expected `=`"),
            AttrErrorKind::ExpectedEq => with_help("expected `=`"),
            AttrErrorKind::ExpectedStr => with_help("expected string literal"),
            AttrErrorKind::ExpectedComma => String::from_str("expected `,`"),
        }
    }
}

} // verus!
