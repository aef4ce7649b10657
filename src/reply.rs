use vstd::prelude::*;
use vstd::slice::slice_to_vec;
use vstd::utf8::{decode_utf8, encode_utf8, encode_utf8_decode_utf8, encode_utf8_valid_utf8, valid_utf8};

use crate::entity::{kind_of, row_view, Entity, EntityType, EntityView};

verus! {

/// One primitive of the host's reply protocol.
///
/// A double is held as the bits of its IEEE-754 binary64 representation.
#[derive(Clone, Debug, PartialEq)]
pub enum Reply {
    Integer { value: i64 },
    Double { bits: u64 },
    Bulk { bytes: Vec<u8> },
    Null,
    Status { text: String },
}

/// The mathematical value of a [`Reply`].
pub ghost enum ReplyView {
    Integer(i64),
    Double(u64),
    Bulk(Seq<u8>),
    Null,
    Status(Seq<char>),
}

impl View for Reply {
    type V = ReplyView;

    open spec fn view(&self) -> ReplyView {
        match self {
            Reply::Integer { value } => ReplyView::Integer(*value),
            Reply::Double { bits } => ReplyView::Double(*bits),
            Reply::Bulk { bytes } => ReplyView::Bulk(bytes@),
            Reply::Null => ReplyView::Null,
            Reply::Status { text } => ReplyView::Status(text@),
        }
    }
}

/// The replies of a sequence of primitives.
pub open spec fn replies_view(rs: Seq<Reply>) -> Seq<ReplyView> {
    rs.map_values(|r: Reply| r@)
}

/// The reply primitive that stands for a value.
pub open spec fn reply_of(e: EntityView) -> ReplyView {
    match e {
        EntityView::Integer(v) => ReplyView::Integer(v as i64),
        EntityView::Float(b) => ReplyView::Double(b),
        EntityView::Text(t) => ReplyView::Bulk(encode_utf8(t)),
        EntityView::Blob(b) => ReplyView::Bulk(b),
        EntityView::Null => ReplyView::Null,
        EntityView::OK => ReplyView::Status("OK"@),
        EntityView::DONE => ReplyView::Status("DONE"@),
    }
}

/// The replies that stand for a row.
pub open spec fn row_replies(row: Seq<EntityView>) -> Seq<ReplyView> {
    row.map_values(|e: EntityView| reply_of(e))
}

/// What a reply primitive reads back as, for a column of type `t`.
pub open spec fn entity_of_reply(r: ReplyView, t: EntityType) -> Option<EntityView> {
    match (r, t) {
        (ReplyView::Integer(v), EntityType::Integer) => {
            if i32::MIN <= v <= i32::MAX {
                Some(EntityView::Integer(v as i32))
            } else {
                None
            }
        },
        (ReplyView::Double(b), EntityType::Float) => Some(EntityView::Float(b)),
        (ReplyView::Bulk(b), EntityType::Text) => {
            if valid_utf8(b) {
                Some(EntityView::Text(decode_utf8(b)))
            } else {
                None
            }
        },
        (ReplyView::Bulk(b), EntityType::Blob) => Some(EntityView::Blob(b)),
        (ReplyView::Null, EntityType::Null) => Some(EntityView::Null),
        _ => None,
    }
}

/// Relies on `String::from_utf8`: it succeeds exactly on valid UTF-8, with the
/// characters those bytes encode.
#[verifier::external_body]
fn utf8_string(bytes: Vec<u8>) -> (r: Option<String>)
    ensures
        r is Some <==> valid_utf8(bytes@),
        r is Some ==> r->0@ == decode_utf8(bytes@),
{
    String::from_utf8(bytes).ok()
}

impl Entity {
    /// The reply primitive that stands for this value: an integer widened to
    /// 64 bits, a double, the bytes of a text or blob, a null, or a status.
    pub fn reply(&self) -> (r: Reply)
        ensures
            r@ == reply_of(self@),
    {
        match self {
            Entity::Integer { value } => Reply::Integer { value: *value as i64 },
            Entity::Float { bits } => Reply::Double { bits: *bits },
            Entity::Text { text } => Reply::Bulk { bytes: slice_to_vec(text.as_str().as_bytes()) },
            Entity::Blob { blob } => Reply::Bulk { bytes: slice_to_vec(blob.as_slice()) },
            Entity::Null => Reply::Null,
            Entity::OK => Reply::Status { text: "OK".to_owned() },
            Entity::DONE => Reply::Status { text: "DONE".to_owned() },
        }
    }
}

/// The array reply of a row: one primitive per value, in column order.
pub fn row_reply(row: &Vec<Entity>) -> (r: Vec<Reply>)
    ensures
        replies_view(r@) == row_replies(row_view(row@)),
{
    let mut out: Vec<Reply> = Vec::new();
    let mut i: usize = 0;
    while i < row.len()
        invariant
            0 <= i <= row@.len(),
            out@.len() == i,
            forall|j: int| 0 <= j < i ==> (#[trigger] out@[j])@ == reply_of(row@[j]@),
        decreases row@.len() - i,
    {
        out.push(row[i].reply());
        i += 1;
    }
    assert(replies_view(out@) =~= row_replies(row_view(row@)));
    out
}

/// Reads a reply primitive back as a value of a column of type `t`; `None`
/// when the primitive cannot come from such a column.
pub fn decode_reply(r: &Reply, t: EntityType) -> (e: Option<Entity>)
    ensures
        match e {
            Some(x) => entity_of_reply(r@, t) == Some(x@),
            None => entity_of_reply(r@, t) is None,
        },
{
    match (r, t) {
        (Reply::Integer { value }, EntityType::Integer) => {
            if i32::MIN as i64 <= *value && *value <= i32::MAX as i64 {
                Some(Entity::Integer { value: *value as i32 })
            } else {
                None
            }
        },
        (Reply::Double { bits }, EntityType::Float) => Some(Entity::Float { bits: *bits }),
        (Reply::Bulk { bytes }, EntityType::Text) => {
            match utf8_string(slice_to_vec(bytes.as_slice())) {
                Some(text) => Some(Entity::Text { text }),
                None => None,
            }
        },
        (Reply::Bulk { bytes }, EntityType::Blob) => Some(
            Entity::Blob { blob: slice_to_vec(bytes.as_slice()) },
        ),
        (Reply::Null, EntityType::Null) => Some(Entity::Null),
        _ => None,
    }
}

/// Encoding a row value and reading the reply back as a value of the same
/// column type gives the value again: integers and floats bit for bit, text
/// and blobs byte for byte.
pub proof fn lemma_reply_round_trip(e: EntityView)
    requires
        kind_of(e) is Some,
    ensures
        entity_of_reply(reply_of(e), kind_of(e)->0) == Some(e),
{
    if let EntityView::Text(t) = e {
        encode_utf8_valid_utf8(t);
        encode_utf8_decode_utf8(t);
    }
}

} // verus!
