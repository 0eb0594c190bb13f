//! Stream frames: what one record of the response stream says.
//!
//! A record is one line of the stream. A record that starts with `data: `
//! carries a payload: either the end marker `[DONE]` or a JSON envelope
//! `{ "choices": [ { "delta": { "role": .., "content": .. } } ] }`, every part
//! of which may be missing or `null`. Anything else says nothing and is passed
//! over.

use vstd::prelude::*;
use vstd::slice::*;
use vstd::string::*;
use crate::json::{decode_lossy, field, json_document, lossy_text, parse_json, Json};

verus! {

/// One protocol event of the response stream.
#[derive(Debug, PartialEq, Eq)]
pub enum Frame {
    /// A piece of the reply's text, never empty.
    Content(String),
    /// The announcement of the role that replies.
    Role(String),
    /// The end of the stream.
    Done,
}

/// A [`Frame`] with its strings as character sequences.
pub enum FrameView {
    Content(Seq<char>),
    Role(Seq<char>),
    Done,
}

impl View for Frame {
    type V = FrameView;

    open spec fn view(&self) -> FrameView {
        match self {
            Frame::Content(s) => FrameView::Content(s@),
            Frame::Role(s) => FrameView::Role(s@),
            Frame::Done => FrameView::Done,
        }
    }
}

/// The view of a frame that may be absent.
pub open spec fn frame_view(frame: Option<Frame>) -> Option<FrameView> {
    match frame {
        Some(f) => Some(f@),
        None => None,
    }
}

/// The bytes of `data: `, which open a data record.
pub open spec fn data_prefix() -> Seq<u8> {
    seq![0x64u8, 0x61u8, 0x74u8, 0x61u8, 0x3Au8, 0x20u8]
}

/// The bytes of `[DONE]`, the payload that ends the stream.
pub open spec fn done_marker() -> Seq<u8> {
    seq![0x5Bu8, 0x44u8, 0x4Fu8, 0x4Eu8, 0x45u8, 0x5Du8]
}

/// The payload of a data record; `None` for any other record.
pub open spec fn payload(record: Seq<u8>) -> Option<Seq<u8>> {
    if data_prefix().is_prefix_of(record) {
        Some(record.skip(6))
    } else {
        None
    }
}

/// The characters of a JSON string value.
pub open spec fn text_of(value: Option<Json>) -> Option<Seq<char>> {
    match value {
        Some(Json::Text(s)) => Some(s@),
        _ => None,
    }
}

/// A delta is an object whose `role` and `content`, where present, are strings.
pub open spec fn delta_ok(delta: Json) -> bool {
    &&& delta is Object
    &&& field(delta, "role"@) is Some ==> field(delta, "role"@)->0 is Text
    &&& field(delta, "content"@) is Some ==> field(delta, "content"@)->0 is Text
}

/// A choice is an object whose `delta`, where present, is a delta.
pub open spec fn choice_ok(choice: Json) -> bool {
    &&& choice is Object
    &&& field(choice, "delta"@) is Some ==> delta_ok(field(choice, "delta"@)->0)
}

/// An envelope is an object whose `choices`, where present, is an array of
/// choices.
pub open spec fn envelope_ok(doc: Json) -> bool {
    &&& doc is Object
    &&& match field(doc, "choices"@) {
        None => true,
        Some(Json::Array(items)) => forall|i: int|
            0 <= i < items@.len() ==> choice_ok(#[trigger] items@[i]),
        Some(_) => false,
    }
}

/// What a delta says: its content where that is not empty, else its role.
pub open spec fn delta_frame(delta: Json) -> Option<FrameView> {
    let content = text_of(field(delta, "content"@));
    let role = text_of(field(delta, "role"@));
    if content is Some && content->0.len() > 0 {
        Some(FrameView::Content(content->0))
    } else if role is Some {
        Some(FrameView::Role(role->0))
    } else {
        None
    }
}

/// The delta of the first choice.
pub open spec fn first_delta(doc: Json) -> Option<Json> {
    match field(doc, "choices"@) {
        Some(Json::Array(items)) => if items@.len() > 0 {
            field(items@[0], "delta"@)
        } else {
            None
        },
        _ => None,
    }
}

/// What a parsed payload says: the frame of its first choice's delta where
/// the document is an envelope, nothing otherwise.
pub open spec fn envelope_frame(doc: Json) -> Option<FrameView> {
    if envelope_ok(doc) {
        match first_delta(doc) {
            Some(delta) => delta_frame(delta),
            None => None,
        }
    } else {
        None
    }
}

/// What the payload of a data record says.
pub open spec fn payload_frame(bytes: Seq<u8>) -> Option<FrameView> {
    if bytes == done_marker() {
        Some(FrameView::Done)
    } else {
        match json_document(lossy_text(bytes)) {
            Some(doc) => envelope_frame(doc),
            None => None,
        }
    }
}

/// What a record says.
pub open spec fn record_frame(record: Seq<u8>) -> Option<FrameView> {
    match payload(record) {
        Some(bytes) => payload_frame(bytes),
        None => None,
    }
}

/// Whether `delta` is a well-formed delta.
pub fn check_delta(delta: &Json) -> (ok: bool)
    ensures
        ok == delta_ok(*delta),
{
    if !delta.is_object() {
        return false;
    }
    let role_ok = match delta.get("role") {
        Some(role) => role.as_text().is_some(),
        None => true,
    };
    let content_ok = match delta.get("content") {
        Some(content) => content.as_text().is_some(),
        None => true,
    };
    role_ok && content_ok
}

/// Whether `choice` is a well-formed choice.
pub fn check_choice(choice: &Json) -> (ok: bool)
    ensures
        ok == choice_ok(*choice),
{
    if !choice.is_object() {
        return false;
    }
    match choice.get("delta") {
        Some(delta) => check_delta(delta),
        None => true,
    }
}

/// Whether `doc` is a well-formed envelope.
pub fn check_envelope(doc: &Json) -> (ok: bool)
    ensures
        ok == envelope_ok(*doc),
{
    if !doc.is_object() {
        return false;
    }
    match doc.get("choices") {
        None => true,
        Some(choices) => match choices.as_array() {
            None => false,
            Some(items) => {
                let mut i: usize = 0;
                while i < items.len()
                    invariant
                        i <= items.len(),
                        *doc is Object,
                        field(*doc, "choices"@) == Some(Json::Array(*items)),
                        forall|j: int| 0 <= j < i ==> choice_ok(#[trigger] items@[j]),
                    decreases items.len() - i,
                {
                    if !check_choice(&items[i]) {
                        assert(!choice_ok(items@[i as int]));
                        assert(field(*doc, "choices"@) matches Some(Json::Array(v)) && v == *items);
                        return false;
                    }
                    i += 1;
                }
                true
            },
        },
    }
}

/// The frame that a well-formed delta carries.
pub fn frame_of_delta(delta: &Json) -> (frame: Option<Frame>)
    ensures
        frame_view(frame) == delta_frame(*delta),
{
    match delta.get("content") {
        Some(Json::Text(content)) => {
            if !content.as_str().is_empty() {
                return Some(Frame::Content(content.clone()));
            }
        },
        _ => {},
    }
    match delta.get("role") {
        Some(Json::Text(role)) => Some(Frame::Role(role.clone())),
        _ => None,
    }
}

/// The frame that a parsed payload carries: that of the first choice's delta
/// where `doc` is a well-formed envelope, none otherwise.
pub fn frame_in(doc: &Json) -> (frame: Option<Frame>)
    ensures
        frame_view(frame) == envelope_frame(*doc),
{
    if !check_envelope(doc) {
        return None;
    }
    let items = match doc.get("choices") {
        Some(Json::Array(items)) => items,
        _ => {
            return None;
        },
    };
    if items.len() == 0 {
        return None;
    }
    match items[0].get("delta") {
        Some(delta) => frame_of_delta(delta),
        None => None,
    }
}

/// Whether `record` is a data record.
pub fn is_data_record(record: &[u8]) -> (r: bool)
    ensures
        r == payload(record@) is Some,
{
    let r = record.len() >= 6 && record[0] == 0x64 && record[1] == 0x61 && record[2] == 0x74
        && record[3] == 0x61 && record[4] == 0x3A && record[5] == 0x20;
    proof {
        let p = data_prefix();
        if r {
            assert(p =~= record@.subrange(0, 6));
        } else if record.len() >= 6 {
            let q = record@.subrange(0, 6);
            assert(q[0] == record@[0] && q[1] == record@[1] && q[2] == record@[2] && q[3]
                == record@[3] && q[4] == record@[4] && q[5] == record@[5]);
            assert(p[0] == 0x64 && p[1] == 0x61 && p[2] == 0x74 && p[3] == 0x61 && p[4] == 0x3A
                && p[5] == 0x20);
        }
    }
    r
}

/// Whether `bytes` is the end marker.
pub fn is_done_marker(bytes: &[u8]) -> (r: bool)
    ensures
        r == (bytes@ == done_marker()),
{
    let r = bytes.len() == 6 && bytes[0] == 0x5B && bytes[1] == 0x44 && bytes[2] == 0x4F
        && bytes[3] == 0x4E && bytes[4] == 0x45 && bytes[5] == 0x5D;
    proof {
        let m = done_marker();
        if r {
            assert(bytes@ =~= m);
        } else if bytes.len() == 6 {
            assert(m[0] == 0x5B && m[1] == 0x44 && m[2] == 0x4F && m[3] == 0x4E && m[4] == 0x45
                && m[5] == 0x5D);
        }
    }
    r
}

/// Reads one record of the stream.
///
/// A record without the `data: ` prefix, with a payload that is no JSON, or
/// with a document that is no envelope or carries neither content nor role,
/// yields no frame; none of these is an error.
pub fn decode_record(record: &[u8]) -> (frame: Option<Frame>)
    ensures
        frame_view(frame) == record_frame(record@),
{
    if !is_data_record(record) {
        return None;
    }
    let bytes = slice_subrange(record, 6, record.len());
    assert(bytes@ == record@.skip(6));
    if is_done_marker(bytes) {
        return Some(Frame::Done);
    }
    let text = decode_lossy(bytes);
    match parse_json(text.as_str()) {
        Some(doc) => frame_in(&doc),
        None => None,
    }
}

} // verus!
