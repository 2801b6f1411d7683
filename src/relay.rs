//! The webhook endpoint's decisions: what to send to the chat API for an
//! inbound event, and what to answer the event's source.

use crate::decode::{decode_payload, payload_of};
use crate::format::{format_payload, message_of};
use crate::json::JsonValue;
use vstd::prelude::*;

verus! {

/// Status of the acknowledgement of a decoded event.
pub const STATUS_OK: u16 = 200;

/// Status of the answer to a body that does not match the event schema.
pub const STATUS_UNPROCESSABLE: u16 = 422;

/// Where messages go: the chat API's sendMessage endpoint and the chat.
#[derive(Debug, Clone)]
pub struct Destination {
    pub send_message_url: String,
    pub chat_id: String,
}

/// A POST of a JSON body to the chat API.
#[derive(Debug)]
pub struct OutboundRequest {
    pub url: String,
    pub body: JsonValue,
}

/// The answer to the event's source.
#[derive(Debug)]
pub struct Reply {
    pub status: u16,
    pub body: JsonValue,
}

/// What the endpoint does with an inbound body.
#[derive(Debug)]
pub enum WebhookStep {
    /// Answer at once, sending nothing.
    Respond(Reply),
    /// Send the request, then answer with `finish_webhook`.
    Deliver(OutboundRequest),
}

/// The sendMessage endpoint of the chat API for a bot token.
pub open spec fn send_message_url_of(bot_token: Seq<char>) -> Seq<char> {
    "https://api.telegram.org/bot"@ + bot_token + "/sendMessage"@
}

pub open spec fn is_str(v: JsonValue, s: Seq<char>) -> bool {
    v matches JsonValue::Str(x) && x@ == s
}

/// `v` is an object with the one member `name`, a string `value`.
pub open spec fn is_single_member(v: JsonValue, name: Seq<char>, value: Seq<char>) -> bool {
    v matches JsonValue::Object(m) && m@.len() == 1 && m@[0].0@ == name && is_str(m@[0].1, value)
}

/// `{"chat_id": chat_id, "text": text, "parse_mode": "HTML"}`.
pub open spec fn is_send_body(v: JsonValue, chat_id: Seq<char>, text: Seq<char>) -> bool {
    &&& v is Object
    &&& v->Object_0@.len() == 3
    &&& v->Object_0@[0].0@ == "chat_id"@
    &&& is_str(v->Object_0@[0].1, chat_id)
    &&& v->Object_0@[1].0@ == "text"@
    &&& is_str(v->Object_0@[1].1, text)
    &&& v->Object_0@[2].0@ == "parse_mode"@
    &&& is_str(v->Object_0@[2].1, "HTML"@)
}

/// The acknowledgement `{"status": "ok"}`.
pub open spec fn is_ok_body(v: JsonValue) -> bool {
    is_single_member(v, "status"@, "ok"@)
}

/// The answer to a body that does not match the schema.
pub open spec fn is_rejection_body(v: JsonValue) -> bool {
    is_single_member(v, "error"@, "the payload does not match the event schema"@)
}

impl Destination {
    /// The destination of a bot's messages to one chat.
    pub fn new(bot_token: &str, chat_id: &str) -> (r: Destination)
        ensures
            r.send_message_url@ == send_message_url_of(bot_token@),
            r.chat_id@ == chat_id@,
    {
        let mut url = String::from_str("https://api.telegram.org/bot");
        url.append(bot_token);
        url.append("/sendMessage");
        Destination { send_message_url: url, chat_id: String::from_str(chat_id) }
    }
}

fn str_member(name: &str, value: &str) -> (r: (String, JsonValue))
    ensures
        r.0@ == name@,
        is_str(r.1, value@),
{
    (String::from_str(name), JsonValue::Str(String::from_str(value)))
}

/// The request that sends `text` to the destination's chat as HTML.
pub fn send_message_request(dest: &Destination, text: &str) -> (r: OutboundRequest)
    ensures
        r.url@ == dest.send_message_url@,
        is_send_body(r.body, dest.chat_id@, text@),
{
    let mut members: Vec<(String, JsonValue)> = Vec::new();
    members.push(str_member("chat_id", dest.chat_id.as_str()));
    members.push(str_member("text", text));
    members.push(str_member("parse_mode", "HTML"));
    OutboundRequest { url: dest.send_message_url.clone(), body: JsonValue::Object(members) }
}

/// Whether the chat API accepted a message, by the status of its answer:
/// only a 2xx status counts as delivered.
pub fn delivery_succeeded(status: u16) -> (r: bool)
    ensures
        r == (200 <= status <= 299),
{
    200 <= status && status <= 299
}

/// Decides what to do with an inbound body: a body that the strict schema
/// rejects is answered at once with a client error; any other is rendered,
/// and the rendering is sent to the destination's chat.
pub fn begin_webhook(dest: &Destination, body: &JsonValue) -> (r: WebhookStep)
    ensures
        match payload_of(*body) {
            None => r matches WebhookStep::Respond(reply) && reply.status == STATUS_UNPROCESSABLE
                && is_rejection_body(reply.body),
            Some(p) => r matches WebhookStep::Deliver(req) && req.url@ == dest.send_message_url@
                && is_send_body(req.body, dest.chat_id@, message_of(p)),
        },
{
    match decode_payload(body) {
        Ok(payload) => {
            let message = format_payload(&payload);
            WebhookStep::Deliver(send_message_request(dest, message.as_str()))
        },
        Err(_) => {
            let mut members: Vec<(String, JsonValue)> = Vec::new();
            members.push(str_member("error", "the payload does not match the event schema"));
            WebhookStep::Respond(
                Reply { status: STATUS_UNPROCESSABLE, body: JsonValue::Object(members) },
            )
        },
    }
}

/// The answer after the send: `200 {"status": "ok"}` whether or not the
/// message was delivered, so that the event's source never retries or alerts
/// on a failed delivery.
pub fn finish_webhook(_delivered: bool) -> (r: Reply)
    ensures
        r.status == STATUS_OK,
        is_ok_body(r.body),
{
    let mut members: Vec<(String, JsonValue)> = Vec::new();
    members.push(str_member("status", "ok"));
    Reply { status: STATUS_OK, body: JsonValue::Object(members) }
}

} // verus!
