use webhook_relay::decode::{decode_attachment, decode_field, decode_payload, DecodeError};
use webhook_relay::json::JsonValue;
use webhook_relay::relay::{
    begin_webhook, delivery_succeeded, finish_webhook, send_message_request, Destination,
    WebhookStep, STATUS_OK, STATUS_UNPROCESSABLE,
};

fn s(v: &str) -> JsonValue {
    JsonValue::Str(v.to_string())
}

fn obj(members: Vec<(&str, JsonValue)>) -> JsonValue {
    JsonValue::Object(members.into_iter().map(|(k, v)| (k.to_string(), v)).collect())
}

fn member_str<'a>(v: &'a JsonValue, name: &str) -> Option<&'a str> {
    match v {
        JsonValue::Object(m) => m.iter().find(|(k, _)| k == name).and_then(|(_, x)| match x {
            JsonValue::Str(t) => Some(t.as_str()),
            _ => None,
        }),
        _ => None,
    }
}

fn event() -> JsonValue {
    obj(vec![
        ("text", s("Server down")),
        (
            "attachments",
            JsonValue::Array(vec![obj(vec![
                ("title", s("Alert")),
                ("title_link", s("http://x")),
                ("text", s("CPU high")),
                ("fields", JsonValue::Array(vec![obj(vec![("title", s("Host")), ("value", s("db1"))])])),
            ])]),
        ),
    ])
}

#[test]
fn decode_accepts_full_event() {
    let p = decode_payload(&event()).unwrap();
    assert_eq!(p.text, "Server down");
    assert_eq!(p.attachments.len(), 1);
    let a = &p.attachments[0];
    assert_eq!(a.title, "Alert");
    assert_eq!(a.title_link.as_deref(), Some("http://x"));
    assert_eq!(a.text.as_deref(), Some("CPU high"));
    let fs = a.fields.as_ref().unwrap();
    assert_eq!(fs.len(), 1);
    assert_eq!(fs[0].title, "Host");
    assert_eq!(fs[0].value, "db1");
}

#[test]
fn decode_rejects_unknown_top_level_member() {
    let v = obj(vec![
        ("text", s("x")),
        ("attachments", JsonValue::Array(vec![])),
        ("extra", JsonValue::Number("1".to_string())),
    ]);
    assert_eq!(decode_payload(&v).unwrap_err(), DecodeError);
}

#[test]
fn decode_rejects_missing_text() {
    let v = obj(vec![("attachments", JsonValue::Array(vec![]))]);
    assert!(decode_payload(&v).is_err());
}

#[test]
fn decode_rejects_missing_attachments() {
    let v = obj(vec![("text", s("x"))]);
    assert!(decode_payload(&v).is_err());
}

#[test]
fn decode_rejects_null_attachments_and_non_objects() {
    let v = obj(vec![("text", s("x")), ("attachments", JsonValue::Null)]);
    assert!(decode_payload(&v).is_err());
    assert!(decode_payload(&JsonValue::Array(vec![])).is_err());
    assert!(decode_payload(&s("x")).is_err());
}

#[test]
fn decode_rejects_wrong_types() {
    let v = obj(vec![("text", JsonValue::Bool(true)), ("attachments", JsonValue::Array(vec![]))]);
    assert!(decode_payload(&v).is_err());
    let a = obj(vec![("title", s("t")), ("text", JsonValue::Number("3".to_string()))]);
    assert!(decode_attachment(&a).is_err());
}

#[test]
fn decode_rejects_repeated_member() {
    let v = obj(vec![("title", s("a")), ("value", s("b")), ("title", s("c"))]);
    assert!(decode_field(&v).is_err());
}

#[test]
fn decode_rejects_unknown_nested_member() {
    let f = obj(vec![("title", s("a")), ("value", s("b")), ("short", JsonValue::Bool(false))]);
    assert!(decode_field(&f).is_err());
    let a = obj(vec![("title", s("t")), ("color", s("red"))]);
    assert!(decode_attachment(&a).is_err());
}

#[test]
fn decode_takes_null_and_absent_optionals_as_none() {
    let a = obj(vec![("title", s("t")), ("title_link", JsonValue::Null), ("fields", JsonValue::Null)]);
    let d = decode_attachment(&a).unwrap();
    assert_eq!(d.title, "t");
    assert!(d.title_link.is_none());
    assert!(d.text.is_none());
    assert!(d.fields.is_none());
}

#[test]
fn destination_builds_send_message_url() {
    let d = Destination::new("123:abc", "-100");
    assert_eq!(d.send_message_url, "https://api.telegram.org/bot123:abc/sendMessage");
    assert_eq!(d.chat_id, "-100");
}

#[test]
fn send_request_body_has_chat_text_and_html_mode() {
    let d = Destination::new("tok", "42");
    let r = send_message_request(&d, "hello");
    assert_eq!(r.url, "https://api.telegram.org/bottok/sendMessage");
    assert_eq!(member_str(&r.body, "chat_id"), Some("42"));
    assert_eq!(member_str(&r.body, "text"), Some("hello"));
    assert_eq!(member_str(&r.body, "parse_mode"), Some("HTML"));
}

#[test]
fn webhook_end_to_end_sends_one_formatted_message() {
    let d = Destination::new("tok", "42");
    match begin_webhook(&d, &event()) {
        WebhookStep::Deliver(req) => {
            assert_eq!(req.url, "https://api.telegram.org/bottok/sendMessage");
            assert_eq!(
                member_str(&req.body, "text"),
                Some("🚨 <b>Server down</b> 🚨\n\n📌 <b>Alert</b>\n🔗 <b>Link:</b> http://x\n\nCPU high\n➡️ Host: db1")
            );
            assert_eq!(member_str(&req.body, "chat_id"), Some("42"));
        }
        WebhookStep::Respond(_) => panic!("expected a delivery"),
    }
    let reply = finish_webhook(true);
    assert_eq!(reply.status, 200);
    assert_eq!(member_str(&reply.body, "status"), Some("ok"));
}

#[test]
fn webhook_rejects_bad_body_without_sending() {
    let d = Destination::new("tok", "42");
    let v = obj(vec![("text", s("x")), ("attachments", JsonValue::Array(vec![])), ("extra", JsonValue::Number("1".to_string()))]);
    match begin_webhook(&d, &v) {
        WebhookStep::Respond(reply) => {
            assert_eq!(reply.status, STATUS_UNPROCESSABLE);
            assert_eq!(member_str(&reply.body, "error"), Some("the payload does not match the event schema"));
        }
        WebhookStep::Deliver(_) => panic!("expected a rejection"),
    }
}

#[test]
fn failed_delivery_still_acknowledged() {
    assert!(!delivery_succeeded(500));
    let reply = finish_webhook(delivery_succeeded(500));
    assert_eq!(reply.status, STATUS_OK);
    assert_eq!(member_str(&reply.body, "status"), Some("ok"));
}

#[test]
fn delivery_status_classes() {
    assert!(delivery_succeeded(200));
    assert!(delivery_succeeded(299));
    assert!(!delivery_succeeded(199));
    assert!(!delivery_succeeded(300));
    assert!(!delivery_succeeded(404));
}
