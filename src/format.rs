//! Rendering an event payload as chat text.
//!
//! Each template has named slots that are filled with the payload's values,
//! inserted as they are (no markup escaping):
//! - message: `🚨 <b>{text}</b> 🚨`, a blank line, then the attachments;
//! - attachment: `📌 <b>{title}</b>`, `🔗 <b>Link:</b> {link}`, a blank line,
//!   `{attach_text}`, then the fields;
//! - field: `➡️ {title}: {value}`.

use crate::model::{Attachment, AttachmentView, Field, FieldView, Payload, PayloadView};
use crate::text::{
    is_white_space, join_lines, join_with_newline, lemma_join_part, line_start, trim_end_ws,
    trim_start_ws, trim_ws, trimmed,
};
use vstd::prelude::*;

verus! {

/// The line of one field.
pub open spec fn field_line(f: FieldView) -> Seq<char> {
    "➡️ "@ + f.title + ": "@ + f.value
}

pub open spec fn field_lines(fs: Seq<FieldView>) -> Seq<Seq<char>> {
    fs.map_values(|f: FieldView| field_line(f))
}

/// The fields block: one line per field, in order; empty without fields.
pub open spec fn fields_block(fields: Option<Seq<FieldView>>) -> Seq<char> {
    match fields {
        Some(fs) => join_lines(field_lines(fs)),
        None => Seq::empty(),
    }
}

pub open spec fn or_empty(o: Option<Seq<char>>) -> Seq<char> {
    match o {
        Some(s) => s,
        None => Seq::empty(),
    }
}

/// The rendering of one attachment.
pub open spec fn attachment_block(a: AttachmentView) -> Seq<char> {
    "📌 <b>"@ + a.title + "</b>\n🔗 <b>Link:</b> "@ + or_empty(a.title_link) + "\n\n"@ + or_empty(
        a.text,
    ) + "\n"@ + fields_block(a.fields)
}

pub open spec fn attachment_blocks(atts: Seq<AttachmentView>) -> Seq<Seq<char>> {
    atts.map_values(|a: AttachmentView| attachment_block(a))
}

/// The filled message template, before trimming.
pub open spec fn message_body(p: PayloadView) -> Seq<char> {
    "🚨 <b>"@ + p.text + "</b> 🚨\n\n"@ + join_lines(attachment_blocks(p.attachments))
}

/// The chat text of a payload.
pub open spec fn message_of(p: PayloadView) -> Seq<char> {
    trim_ws(message_body(p))
}

/// Renders one field.
pub fn format_field(field: &Field) -> (r: String)
    ensures
        r@ == field_line(field@),
{
    let mut out = String::from_str("➡️ ");
    out.append(field.title.as_str());
    out.append(": ");
    out.append(field.value.as_str());
    out
}

/// Renders one attachment.
pub fn format_attachment(att: &Attachment) -> (r: String)
    ensures
        r@ == attachment_block(att@),
{
    let fields = match &att.fields {
        Some(fs) => {
            let mut lines: Vec<String> = Vec::new();
            let mut i: usize = 0;
            while i < fs.len()
                invariant
                    i <= fs.len(),
                    lines@.len() == i,
                    forall|j: int| 0 <= j < i ==> lines@[j]@ == field_line(fs@[j]@),
                decreases fs.len() - i,
            {
                lines.push(format_field(&fs[i]));
                i = i + 1;
            }
            let joined = join_with_newline(&lines);
            assert(lines@.map_values(|s: String| s@) =~= field_lines(att@.fields->0));
            joined
        },
        None => String::new(),
    };
    let mut out = String::from_str("📌 <b>");
    out.append(att.title.as_str());
    out.append("</b>\n🔗 <b>Link:</b> ");
    match &att.title_link {
        Some(l) => out.append(l.as_str()),
        None => {},
    }
    out.append("\n\n");
    match &att.text {
        Some(t) => out.append(t.as_str()),
        None => {},
    }
    out.append("\n");
    out.append(fields.as_str());
    assert(out@ =~= attachment_block(att@));
    out
}

/// Builds the chat text of a payload.
pub fn format_payload(payload: &Payload) -> (r: String)
    ensures
        r@ == message_of(payload@),
{
    let mut blocks: Vec<String> = Vec::new();
    let mut i: usize = 0;
    while i < payload.attachments.len()
        invariant
            i <= payload.attachments.len(),
            blocks@.len() == i,
            forall|j: int|
                0 <= j < i ==> blocks@[j]@ == attachment_block(payload.attachments@[j]@),
        decreases payload.attachments.len() - i,
    {
        blocks.push(format_attachment(&payload.attachments[i]));
        i = i + 1;
    }
    let joined = join_with_newline(&blocks);
    assert(blocks@.map_values(|s: String| s@) =~= attachment_blocks(payload@.attachments));
    let mut out = String::from_str("🚨 <b>");
    out.append(payload.text.as_str());
    out.append("</b> 🚨\n\n");
    out.append(joined.as_str());
    assert(out@ =~= message_body(payload@));
    trimmed(out.as_str())
}

/// A payload without attachments renders as its bold text between the two
/// alarm signs, with nothing after it.
pub proof fn lemma_no_attachments(p: PayloadView)
    requires
        p.attachments.len() == 0,
    ensures
        message_of(p) == "🚨 <b>"@ + p.text + "</b> 🚨"@,
{
    reveal_strlit("🚨 <b>");
    reveal_strlit("</b> 🚨\n\n");
    reveal_strlit("</b> 🚨");
    let head = "🚨 <b>"@ + p.text + "</b> 🚨"@;
    assert(attachment_blocks(p.attachments) =~= Seq::<Seq<char>>::empty());
    assert(message_body(p) =~= head + "\n\n"@) by {
        reveal_strlit("\n\n");
    }
    assert(!is_white_space(message_body(p)[0]));
    assert(trim_start_ws(message_body(p)) == message_body(p));
    reveal_strlit("\n\n");
    let b = message_body(p);
    assert(b.drop_last() =~= head + "\n"@) by {
        reveal_strlit("\n");
    }
    assert((head + "\n"@).drop_last() =~= head) by {
        reveal_strlit("\n");
    }
    assert(!is_white_space(head.last()));
    assert(trim_end_ws(head) == head);
    assert(trim_end_ws(b) == trim_end_ws(b.drop_last()));
    assert(trim_end_ws(head + "\n"@) == trim_end_ws(head)) by {
        reveal_strlit("\n");
    }
}

/// An attachment whose fields are absent or empty renders with no field
/// lines: its rendering ends with the newline after its text.
pub proof fn lemma_attachment_without_fields(a: AttachmentView)
    requires
        a.fields is None || a.fields->0.len() == 0,
    ensures
        fields_block(a.fields) == Seq::<char>::empty(),
        attachment_block(a) == "📌 <b>"@ + a.title + "</b>\n🔗 <b>Link:</b> "@ + or_empty(
            a.title_link,
        ) + "\n\n"@ + or_empty(a.text) + "\n"@,
{
    if a.fields is Some {
        assert(field_lines(a.fields->0) =~= Seq::<Seq<char>>::empty());
    }
    let s = "📌 <b>"@ + a.title + "</b>\n🔗 <b>Link:</b> "@ + or_empty(a.title_link) + "\n\n"@
        + or_empty(a.text) + "\n"@;
    assert(s + Seq::<char>::empty() =~= s);
}

/// `part` stands in `s` from position `p` on.
pub open spec fn occurs_at(s: Seq<char>, p: int, part: Seq<char>) -> bool {
    &&& 0 <= p
    &&& p + part.len() <= s.len()
    &&& s.subrange(p, p + part.len()) == part
}

/// The fields of an attachment appear in its rendering in their order: the
/// line of field `i` ends before the line of any later field `j` starts.
pub proof fn lemma_field_order(a: AttachmentView, i: int, j: int)
    requires
        a.fields is Some,
        0 <= i < j < a.fields->0.len(),
    ensures
        exists|p: int, q: int|
            #![trigger occurs_at(attachment_block(a), p, field_line(a.fields->0[i])), occurs_at(attachment_block(a), q, field_line(a.fields->0[j]))]
            occurs_at(attachment_block(a), p, field_line(a.fields->0[i])) && occurs_at(
                attachment_block(a),
                q,
                field_line(a.fields->0[j]),
            ) && p + field_line(a.fields->0[i]).len() < q,
{
    let lines = field_lines(a.fields->0);
    let out = attachment_block(a);
    let block = join_lines(lines);
    let head = "📌 <b>"@ + a.title + "</b>\n🔗 <b>Link:</b> "@ + or_empty(a.title_link) + "\n\n"@
        + or_empty(a.text) + "\n"@;
    assert(out == head + block);
    lemma_join_part(lines, i);
    lemma_join_part(lines, j);
    let off = head.len() as int;
    let p = off + line_start(lines, i);
    let q = off + line_start(lines, j);
    let li = field_line(a.fields->0[i]);
    let lj = field_line(a.fields->0[j]);
    assert(lines[i] == li);
    assert(lines[j] == lj);
    assert(out.subrange(p, p + li.len()) =~= block.subrange(
        line_start(lines, i),
        line_start(lines, i) + li.len(),
    ));
    assert(out.subrange(q, q + lj.len()) =~= block.subrange(
        line_start(lines, j),
        line_start(lines, j) + lj.len(),
    ));
    assert(occurs_at(out, p, li));
    assert(occurs_at(out, q, lj));
}

/// Rendering depends on the payload alone: equal payloads give the same
/// text, so rendering one payload twice gives the same text twice.
pub proof fn lemma_format_deterministic(p: PayloadView, q: PayloadView)
    requires
        p == q,
    ensures
        message_of(p) == message_of(q),
{
}

} // verus!
