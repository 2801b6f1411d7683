//! The event payload that the webhook receives.

use vstd::prelude::*;

verus! {

/// One key/value line of an attachment.
#[derive(Debug, Clone)]
pub struct Field {
    pub title: String,
    pub value: String,
}

/// A section of an event with a title, an optional link, optional text and
/// optional fields.
#[derive(Debug, Clone)]
pub struct Attachment {
    pub title: String,
    pub title_link: Option<String>,
    pub text: Option<String>,
    pub fields: Option<Vec<Field>>,
}

/// One event notification.
#[derive(Debug, Clone)]
pub struct Payload {
    pub text: String,
    pub attachments: Vec<Attachment>,
}

pub struct FieldView {
    pub title: Seq<char>,
    pub value: Seq<char>,
}

pub struct AttachmentView {
    pub title: Seq<char>,
    pub title_link: Option<Seq<char>>,
    pub text: Option<Seq<char>>,
    pub fields: Option<Seq<FieldView>>,
}

pub struct PayloadView {
    pub text: Seq<char>,
    pub attachments: Seq<AttachmentView>,
}

pub open spec fn opt_str_view(o: Option<String>) -> Option<Seq<char>> {
    match o {
        Some(s) => Some(s@),
        None => None,
    }
}

pub open spec fn fields_view(fs: Seq<Field>) -> Seq<FieldView> {
    fs.map_values(|f: Field| f@)
}

pub open spec fn attachments_view(atts: Seq<Attachment>) -> Seq<AttachmentView> {
    atts.map_values(|a: Attachment| a@)
}

impl View for Field {
    type V = FieldView;

    open spec fn view(&self) -> FieldView {
        FieldView { title: self.title@, value: self.value@ }
    }
}

impl View for Attachment {
    type V = AttachmentView;

    open spec fn view(&self) -> AttachmentView {
        AttachmentView {
            title: self.title@,
            title_link: opt_str_view(self.title_link),
            text: opt_str_view(self.text),
            fields: match self.fields {
                Some(fs) => Some(fields_view(fs@)),
                None => None,
            },
        }
    }
}

impl View for Payload {
    type V = PayloadView;

    open spec fn view(&self) -> PayloadView {
        PayloadView { text: self.text@, attachments: attachments_view(self.attachments@) }
    }
}

} // verus!
