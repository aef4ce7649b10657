use vstd::prelude::*;
use vstd::utf8::{decode_utf8, valid_utf8};

use crate::engine::{SQLITE_BLOB, SQLITE_FLOAT, SQLITE_INTEGER, SQLITE_TEXT};

verus! {

/// The type of a result column, fixed when the first row is read.
#[derive(Clone, Copy, Debug, PartialEq, Eq, Structural)]
pub enum EntityType {
    Integer,
    Float,
    Text,
    Blob,
    Null,
}

/// The column type that an engine type tag stands for; unknown tags read as `Null`.
pub open spec fn type_of_tag(tag: i32) -> EntityType {
    if tag == SQLITE_INTEGER {
        EntityType::Integer
    } else if tag == SQLITE_FLOAT {
        EntityType::Float
    } else if tag == SQLITE_TEXT {
        EntityType::Text
    } else if tag == SQLITE_BLOB {
        EntityType::Blob
    } else {
        EntityType::Null
    }
}

/// Maps an engine type tag to a column type.
pub fn entity_type_of(tag: i32) -> (t: EntityType)
    ensures
        t == type_of_tag(tag),
{
    if tag == SQLITE_INTEGER {
        EntityType::Integer
    } else if tag == SQLITE_FLOAT {
        EntityType::Float
    } else if tag == SQLITE_TEXT {
        EntityType::Text
    } else if tag == SQLITE_BLOB {
        EntityType::Blob
    } else {
        EntityType::Null
    }
}

/// A value of a result row, or one of the two acknowledgements that stand for
/// a statement without rows.
///
/// A float is held as the bits of its IEEE-754 binary64 representation.
#[derive(Clone, Debug, PartialEq)]
pub enum Entity {
    Integer { value: i32 },
    Float { bits: u64 },
    Text { text: String },
    Blob { blob: Vec<u8> },
    Null,
    OK,
    DONE,
}

/// The mathematical value of an [`Entity`].
pub ghost enum EntityView {
    Integer(i32),
    Float(u64),
    Text(Seq<char>),
    Blob(Seq<u8>),
    Null,
    OK,
    DONE,
}

impl View for Entity {
    type V = EntityView;

    open spec fn view(&self) -> EntityView {
        match self {
            Entity::Integer { value } => EntityView::Integer(*value),
            Entity::Float { bits } => EntityView::Float(*bits),
            Entity::Text { text } => EntityView::Text(text@),
            Entity::Blob { blob } => EntityView::Blob(blob@),
            Entity::Null => EntityView::Null,
            Entity::OK => EntityView::OK,
            Entity::DONE => EntityView::DONE,
        }
    }
}

/// The type of a row value; `None` for the two acknowledgements.
pub open spec fn kind_of(e: EntityView) -> Option<EntityType> {
    match e {
        EntityView::Integer(_) => Some(EntityType::Integer),
        EntityView::Float(_) => Some(EntityType::Float),
        EntityView::Text(_) => Some(EntityType::Text),
        EntityView::Blob(_) => Some(EntityType::Blob),
        EntityView::Null => Some(EntityType::Null),
        _ => None,
    }
}

/// The values of a row.
pub open spec fn row_view(row: Seq<Entity>) -> Seq<EntityView> {
    row.map_values(|e: Entity| e@)
}

/// What was read from the engine for one column, by the reader that matches
/// the column's type.
#[derive(Clone, Debug, PartialEq)]
pub enum ColumnValue {
    Integer { value: i32 },
    Double { bits: u64 },
    Bytes { bytes: Vec<u8> },
    Null,
}

/// Whether `v` is what the reader for a column of type `t` yields.
pub open spec fn fits(t: EntityType, v: ColumnValue) -> bool {
    match t {
        EntityType::Integer => v is Integer,
        EntityType::Float => v is Double,
        EntityType::Text => v is Bytes,
        EntityType::Blob => v is Bytes,
        EntityType::Null => v is Null,
    }
}

/// The characters that permissive UTF-8 decoding makes of a byte sequence.
pub uninterp spec fn lossy_utf8(bytes: Seq<u8>) -> Seq<char>;

/// Relies on `String::from_utf8_lossy`: every invalid sequence is replaced, and
/// valid input is decoded unchanged.
#[verifier::external_body]
fn decode_lossy(bytes: &[u8]) -> (r: String)
    ensures
        r@ == lossy_utf8(bytes@),
        valid_utf8(bytes@) ==> r@ == decode_utf8(bytes@),
{
    String::from_utf8_lossy(bytes).into_owned()
}

/// The text that a text column's bytes stand for: exactly the characters they
/// encode when they are valid UTF-8, else their permissive decoding.
pub open spec fn text_of_bytes(bytes: Seq<u8>) -> Seq<char> {
    if valid_utf8(bytes) {
        decode_utf8(bytes)
    } else {
        lossy_utf8(bytes)
    }
}

/// The value that a column of type `t` holds when the engine yielded `v`.
pub open spec fn column_entity(t: EntityType, v: ColumnValue) -> EntityView {
    match (t, v) {
        (EntityType::Integer, ColumnValue::Integer { value }) => EntityView::Integer(value),
        (EntityType::Float, ColumnValue::Double { bits }) => EntityView::Float(bits),
        (EntityType::Text, ColumnValue::Bytes { bytes }) => EntityView::Text(
            text_of_bytes(bytes@),
        ),
        (EntityType::Blob, ColumnValue::Bytes { bytes }) => EntityView::Blob(bytes@),
        _ => EntityView::Null,
    }
}

/// Turns what the engine yielded for a column of type `t` into a row value:
/// text is decoded permissively, a blob keeps its bytes.
pub fn decode_column(t: EntityType, v: ColumnValue) -> (e: Entity)
    requires
        fits(t, v),
    ensures
        e@ == column_entity(t, v),
        kind_of(e@) == Some(t),
{
    match v {
        ColumnValue::Integer { value } => Entity::Integer { value },
        ColumnValue::Double { bits } => Entity::Float { bits },
        ColumnValue::Bytes { bytes } => {
            if t == EntityType::Text {
                Entity::Text { text: decode_lossy(bytes.as_slice()) }
            } else {
                Entity::Blob { blob: bytes }
            }
        },
        ColumnValue::Null => Entity::Null,
    }
}

} // verus!
