//! Strict decoding of an event payload from JSON: every member must be one
//! that the schema names, no name may occur twice, each required member must
//! be there, and each value must have the schema's type. An optional member
//! may be absent or `null`.

use crate::json::{lookup, member, names_distinct, names_fit, names_within, JsonValue};
use crate::model::{Attachment, AttachmentView, Field, FieldView, Payload, PayloadView};
use vstd::prelude::*;

verus! {

/// The payload does not match the event schema.
#[derive(Debug, Clone, Copy, PartialEq, Eq)]
pub struct DecodeError;

pub open spec fn deref_opt(v: Option<&JsonValue>) -> Option<JsonValue> {
    match v {
        Some(x) => Some(*x),
        None => None,
    }
}

/// A required string member.
pub open spec fn required_str(v: Option<JsonValue>) -> Option<Seq<char>> {
    match v {
        Some(JsonValue::Str(s)) => Some(s@),
        _ => None,
    }
}

/// An optional string member: `Some(None)` when absent or `null`, `None`
/// when it has another type.
pub open spec fn optional_str(v: Option<JsonValue>) -> Option<Option<Seq<char>>> {
    match v {
        None => Some(None),
        Some(JsonValue::Null) => Some(None),
        Some(JsonValue::Str(s)) => Some(Some(s@)),
        _ => None,
    }
}

pub open spec fn members_of(v: JsonValue) -> Seq<(String, JsonValue)> {
    match v {
        JsonValue::Object(m) => m@,
        _ => Seq::empty(),
    }
}

/// `v` is an object whose members are named by `names`, each at most once.
pub open spec fn object_within(v: JsonValue, names: Seq<Seq<char>>) -> bool {
    &&& v is Object
    &&& names_within(members_of(v), names)
    &&& names_distinct(members_of(v))
}

pub open spec fn field_names() -> Seq<Seq<char>> {
    seq!["title"@, "value"@]
}

pub open spec fn attachment_names() -> Seq<Seq<char>> {
    seq!["title"@, "title_link"@, "text"@, "fields"@]
}

pub open spec fn payload_names() -> Seq<Seq<char>> {
    seq!["text"@, "attachments"@]
}

/// The field that `v` encodes, if any.
pub open spec fn field_of(v: JsonValue) -> Option<FieldView> {
    let m = members_of(v);
    let title = required_str(lookup(m, "title"@));
    let value = required_str(lookup(m, "value"@));
    if object_within(v, field_names()) && title is Some && value is Some {
        Some(FieldView { title: title->0, value: value->0 })
    } else {
        None
    }
}

/// The fields that an array's items encode, if each encodes one.
pub open spec fn fields_of(items: Seq<JsonValue>) -> Option<Seq<FieldView>> {
    if forall|i: int| 0 <= i < items.len() ==> (#[trigger] field_of(items[i])) is Some {
        Some(items.map_values(|x: JsonValue| field_of(x)->0))
    } else {
        None
    }
}

/// The optional `fields` member: `Some(None)` when absent or `null`.
pub open spec fn optional_fields(v: Option<JsonValue>) -> Option<Option<Seq<FieldView>>> {
    match v {
        None => Some(None),
        Some(JsonValue::Null) => Some(None),
        Some(JsonValue::Array(items)) => match fields_of(items@) {
            Some(fs) => Some(Some(fs)),
            None => None,
        },
        _ => None,
    }
}

/// The attachment that `v` encodes, if any.
pub open spec fn attachment_of(v: JsonValue) -> Option<AttachmentView> {
    let m = members_of(v);
    let title = required_str(lookup(m, "title"@));
    let link = optional_str(lookup(m, "title_link"@));
    let text = optional_str(lookup(m, "text"@));
    let fields = optional_fields(lookup(m, "fields"@));
    if object_within(v, attachment_names()) && title is Some && link is Some && text is Some
        && fields is Some {
        Some(
            AttachmentView {
                title: title->0,
                title_link: link->0,
                text: text->0,
                fields: fields->0,
            },
        )
    } else {
        None
    }
}

/// The attachments that an array's items encode, if each encodes one.
pub open spec fn attachments_of(items: Seq<JsonValue>) -> Option<Seq<AttachmentView>> {
    if forall|i: int| 0 <= i < items.len() ==> (#[trigger] attachment_of(items[i])) is Some {
        Some(items.map_values(|x: JsonValue| attachment_of(x)->0))
    } else {
        None
    }
}

/// The required `attachments` member.
pub open spec fn required_attachments(v: Option<JsonValue>) -> Option<Seq<AttachmentView>> {
    match v {
        Some(JsonValue::Array(items)) => attachments_of(items@),
        _ => None,
    }
}

/// The payload that `v` encodes, if any.
pub open spec fn payload_of(v: JsonValue) -> Option<PayloadView> {
    let m = members_of(v);
    let text = required_str(lookup(m, "text"@));
    let attachments = required_attachments(lookup(m, "attachments"@));
    if object_within(v, payload_names()) && text is Some && attachments is Some {
        Some(PayloadView { text: text->0, attachments: attachments->0 })
    } else {
        None
    }
}

fn str_member(v: Option<&JsonValue>) -> (r: Result<String, DecodeError>)
    ensures
        match r {
            Ok(s) => required_str(deref_opt(v)) == Some(s@),
            Err(_) => required_str(deref_opt(v)) is None,
        },
{
    match v {
        Some(JsonValue::Str(s)) => Ok(s.clone()),
        _ => Err(DecodeError),
    }
}

fn optional_str_member(v: Option<&JsonValue>) -> (r: Result<Option<String>, DecodeError>)
    ensures
        match r {
            Ok(Some(s)) => optional_str(deref_opt(v)) == Some(Some(s@)),
            Ok(None) => optional_str(deref_opt(v)) == Some(None::<Seq<char>>),
            Err(_) => optional_str(deref_opt(v)) is None,
        },
{
    match v {
        None => Ok(None),
        Some(JsonValue::Null) => Ok(None),
        Some(JsonValue::Str(s)) => Ok(Some(s.clone())),
        _ => Err(DecodeError),
    }
}

/// Checks that `v` is an object with only the given names, each at most once.
fn object_members<'a>(v: &'a JsonValue, names: &Vec<String>) -> (r: Option<
    &'a Vec<(String, JsonValue)>,
>)
    ensures
        match r {
            Some(m) => object_within(*v, names@.map_values(|s: String| s@)) && m@ == members_of(
                *v,
            ),
            None => !object_within(*v, names@.map_values(|s: String| s@)),
        },
{
    match v {
        JsonValue::Object(m) => {
            if names_fit(m, names) {
                Some(m)
            } else {
                None
            }
        },
        _ => None,
    }
}

/// Decodes one field.
pub fn decode_field(v: &JsonValue) -> (r: Result<Field, DecodeError>)
    ensures
        match r {
            Ok(f) => field_of(*v) == Some(f@),
            Err(_) => field_of(*v) is None,
        },
{
    let title = String::from_str("title");
    let value = String::from_str("value");
    let mut names: Vec<String> = Vec::new();
    names.push(title.clone());
    names.push(value.clone());
    assert(names@.map_values(|s: String| s@) =~= field_names());
    let m = match object_members(v, &names) {
        Some(m) => m,
        None => return Err(DecodeError),
    };
    let t = str_member(member(m, &title))?;
    let x = str_member(member(m, &value))?;
    Ok(Field { title: t, value: x })
}

fn decode_fields(items: &Vec<JsonValue>) -> (r: Result<Vec<Field>, DecodeError>)
    ensures
        match r {
            Ok(fs) => fields_of(items@) == Some(fs@.map_values(|f: Field| f@)),
            Err(_) => fields_of(items@) is None,
        },
{
    let mut out: Vec<Field> = Vec::new();
    let mut i: usize = 0;
    while i < items.len()
        invariant
            i <= items.len(),
            out@.len() == i,
            forall|j: int| 0 <= j < i ==> field_of(#[trigger] items@[j]) == Some(out@[j]@),
        decreases items.len() - i,
    {
        match decode_field(&items[i]) {
            Ok(f) => out.push(f),
            Err(e) => {
                assert(field_of(items@[i as int]) is None);
                return Err(e);
            },
        }
        i = i + 1;
    }
    assert(fields_of(items@) is Some);
    assert(items@.map_values(|x: JsonValue| field_of(x)->0) =~= out@.map_values(|f: Field| f@));
    Ok(out)
}

fn optional_fields_member(v: Option<&JsonValue>) -> (r: Result<Option<Vec<Field>>, DecodeError>)
    ensures
        match r {
            Ok(Some(fs)) => optional_fields(deref_opt(v)) == Some(
                Some(fs@.map_values(|f: Field| f@)),
            ),
            Ok(None) => optional_fields(deref_opt(v)) == Some(None::<Seq<FieldView>>),
            Err(_) => optional_fields(deref_opt(v)) is None,
        },
{
    match v {
        None => Ok(None),
        Some(JsonValue::Null) => Ok(None),
        Some(JsonValue::Array(items)) => {
            let fs = decode_fields(items)?;
            Ok(Some(fs))
        },
        _ => Err(DecodeError),
    }
}

/// Decodes one attachment.
pub fn decode_attachment(v: &JsonValue) -> (r: Result<Attachment, DecodeError>)
    ensures
        match r {
            Ok(a) => attachment_of(*v) == Some(a@),
            Err(_) => attachment_of(*v) is None,
        },
{
    let title = String::from_str("title");
    let title_link = String::from_str("title_link");
    let text = String::from_str("text");
    let fields = String::from_str("fields");
    let mut names: Vec<String> = Vec::new();
    names.push(title.clone());
    names.push(title_link.clone());
    names.push(text.clone());
    names.push(fields.clone());
    assert(names@.map_values(|s: String| s@) =~= attachment_names());
    let m = match object_members(v, &names) {
        Some(m) => m,
        None => return Err(DecodeError),
    };
    let t = str_member(member(m, &title))?;
    let l = optional_str_member(member(m, &title_link))?;
    let x = optional_str_member(member(m, &text))?;
    let fs = optional_fields_member(member(m, &fields))?;
    Ok(Attachment { title: t, title_link: l, text: x, fields: fs })
}

fn decode_attachments(items: &Vec<JsonValue>) -> (r: Result<Vec<Attachment>, DecodeError>)
    ensures
        match r {
            Ok(atts) => attachments_of(items@) == Some(atts@.map_values(|a: Attachment| a@)),
            Err(_) => attachments_of(items@) is None,
        },
{
    let mut out: Vec<Attachment> = Vec::new();
    let mut i: usize = 0;
    while i < items.len()
        invariant
            i <= items.len(),
            out@.len() == i,
            forall|j: int| 0 <= j < i ==> attachment_of(#[trigger] items@[j]) == Some(out@[j]@),
        decreases items.len() - i,
    {
        match decode_attachment(&items[i]) {
            Ok(a) => out.push(a),
            Err(e) => {
                assert(attachment_of(items@[i as int]) is None);
                return Err(e);
            },
        }
        i = i + 1;
    }
    assert(attachments_of(items@) is Some);
    assert(items@.map_values(|x: JsonValue| attachment_of(x)->0) =~= out@.map_values(
        |a: Attachment| a@,
    ));
    Ok(out)
}

/// Decodes an event payload strictly: it fails on any member that the
/// schema does not name, on a repeated member, on a missing `text` or
/// `attachments`, and on a value of the wrong type.
pub fn decode_payload(v: &JsonValue) -> (r: Result<Payload, DecodeError>)
    ensures
        match r {
            Ok(p) => payload_of(*v) == Some(p@),
            Err(_) => payload_of(*v) is None,
        },
{
    let text = String::from_str("text");
    let attachments = String::from_str("attachments");
    let mut names: Vec<String> = Vec::new();
    names.push(text.clone());
    names.push(attachments.clone());
    assert(names@.map_values(|s: String| s@) =~= payload_names());
    let m = match object_members(v, &names) {
        Some(m) => m,
        None => return Err(DecodeError),
    };
    let t = str_member(member(m, &text))?;
    let atts = match member(m, &attachments) {
        Some(JsonValue::Array(items)) => decode_attachments(items)?,
        _ => return Err(DecodeError),
    };
    Ok(Payload { text: t, attachments: atts })
}

/// A payload with a member that the schema does not name is rejected.
pub proof fn lemma_unknown_member_rejected(v: JsonValue, i: int)
    requires
        0 <= i < members_of(v).len(),
        !payload_names().contains(members_of(v)[i].0@),
    ensures
        payload_of(v) is None,
{
    assert(!names_within(members_of(v), payload_names()));
}

/// A payload without `text`, or without `attachments`, is rejected.
pub proof fn lemma_missing_member_rejected(v: JsonValue)
    requires
        lookup(members_of(v), "text"@) is None || lookup(members_of(v), "attachments"@) is None,
    ensures
        payload_of(v) is None,
{
}

} // verus!
