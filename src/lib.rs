//! Declarative mapping of remote-call results onto records.
//!
//! A record type is described by an explicit schema: every field carries an
//! `alias` directive naming the external parameter (or table column) it reads.
//! The schema is built from field declarations and their annotation tokens,
//! and two decoders interpret it: one for a whole call result, one for a
//! single table row.
pub mod attr;
pub mod decode;
pub mod field;
pub mod laws;
pub mod lookup;
pub mod model;
pub mod params;
pub mod text;

pub use attr::{
    parse_args, parse_attributes, parse_eq, AttrError, AttrErrorKind, Attribute,
    AttributeSpanWrapper, FieldAttr, Span, Token, TokenKind,
};
pub use decode::{
    decode_field, decode_result, decode_row, decode_rows, find_model, FromMethod, FromTable,
    Padding, Value,
};
pub use field::{Classification, Field, FieldDecl, GenericArg, PathSegment, TypeExpr};
pub use model::{fields_from_item_data, ItemDecl, ItemShape, Model};
pub use params::{Cell, CallResult, DecodeError, ParamData, Parameter, Row};
pub use text::trim_end;
