use webhook_relay::format::{format_attachment, format_field, format_payload};
use webhook_relay::model::{Attachment, Field, Payload};

fn field(title: &str, value: &str) -> Field {
    Field { title: title.to_string(), value: value.to_string() }
}

fn attachment(title: &str, link: Option<&str>, text: Option<&str>, fields: Option<Vec<Field>>) -> Attachment {
    Attachment {
        title: title.to_string(),
        title_link: link.map(|s| s.to_string()),
        text: text.map(|s| s.to_string()),
        fields,
    }
}

#[test]
fn field_renders_title_and_value() {
    assert_eq!(format_field(&field("Host", "db1")), "➡️ Host: db1");
}

#[test]
fn no_attachments_renders_bold_text_only() {
    let p = Payload { text: "Server down".to_string(), attachments: vec![] };
    assert_eq!(format_payload(&p), "🚨 <b>Server down</b> 🚨");
}

#[test]
fn no_attachments_keeps_text_trailing_space_out() {
    let p = Payload { text: "x  ".to_string(), attachments: vec![] };
    assert_eq!(format_payload(&p), "🚨 <b>x  </b> 🚨");
}

#[test]
fn attachment_without_fields_has_no_field_lines() {
    let a = attachment("Alert", Some("http://x"), Some("CPU high"), None);
    assert_eq!(format_attachment(&a), "📌 <b>Alert</b>\n🔗 <b>Link:</b> http://x\n\nCPU high\n");
    let b = attachment("Alert", Some("http://x"), Some("CPU high"), Some(vec![]));
    assert_eq!(format_attachment(&b), "📌 <b>Alert</b>\n🔗 <b>Link:</b> http://x\n\nCPU high\n");
}

#[test]
fn absent_link_and_text_render_empty() {
    let a = attachment("T", None, None, None);
    assert_eq!(format_attachment(&a), "📌 <b>T</b>\n🔗 <b>Link:</b> \n\n\n");
}

#[test]
fn field_order_is_kept() {
    let a = attachment("T", None, None, Some(vec![field("A", "1"), field("B", "2")]));
    let p = Payload { text: "x".to_string(), attachments: vec![a] };
    let out = format_payload(&p);
    let i = out.find("A: 1").unwrap();
    let j = out.find("B: 2").unwrap();
    assert!(i < j);
    assert_eq!(
        out,
        "🚨 <b>x</b> 🚨\n\n📌 <b>T</b>\n🔗 <b>Link:</b> \n\n\n➡️ A: 1\n➡️ B: 2"
    );
}

#[test]
fn attachments_are_joined_in_order_and_trimmed() {
    let a = attachment("One", Some("l1"), Some("t1"), None);
    let b = attachment("Two", None, Some("t2"), None);
    let p = Payload { text: "x".to_string(), attachments: vec![a, b] };
    assert_eq!(
        format_payload(&p),
        "🚨 <b>x</b> 🚨\n\n📌 <b>One</b>\n🔗 <b>Link:</b> l1\n\nt1\n\n📌 <b>Two</b>\n🔗 <b>Link:</b> \n\nt2"
    );
}

#[test]
fn values_are_inserted_raw() {
    let p = Payload { text: "<i>{attachments}</i>".to_string(), attachments: vec![] };
    assert_eq!(format_payload(&p), "🚨 <b><i>{attachments}</i></b> 🚨");
}

#[test]
fn formatting_twice_gives_the_same_text() {
    let a = attachment("Alert", Some("http://x"), Some("CPU high"), Some(vec![field("Host", "db1")]));
    let p = Payload { text: "Server down".to_string(), attachments: vec![a] };
    assert_eq!(format_payload(&p), format_payload(&p));
}
