//! The text of requests and notifications.

use crate::decimal::{decimal, decimal_text};
use crate::json::{json_string, json_text, string_text, value_text};
use crate::types::{ParamsSer, SubscriptionId, SubscriptionKey};
use serde_json::Value;
use vstd::prelude::*;
use vstd::string::StringExecFns;

verus! {

/// The parts, with a comma between each two.
pub open spec fn join(parts: Seq<Seq<char>>) -> Seq<char>
    decreases parts.len(),
{
    if parts.len() == 0 {
        seq![]
    } else if parts.len() == 1 {
        parts[0]
    } else {
        join(parts.drop_last()) + ","@ + parts.last()
    }
}

/// The texts of some JSON values.
pub open spec fn value_texts(values: Seq<Value>) -> Seq<Seq<char>> {
    Seq::new(values.len(), |i: int| json_text(values[i]))
}

/// The texts of the members of a JSON object.
pub open spec fn member_texts(entries: Seq<(String, Value)>) -> Seq<Seq<char>> {
    Seq::new(
        entries.len(),
        |i: int| json_string(entries[i].0@) + ":"@ + json_text(entries[i].1),
    )
}

/// The text of the parameters, if there are any.
pub open spec fn params_text(params: Option<ParamsSer>) -> Option<Seq<char>> {
    match params {
        None => None,
        Some(ParamsSer::Array(values)) => Some("["@ + join(value_texts(values@)) + "]"@),
        Some(ParamsSer::Object(entries)) => Some("{"@ + join(member_texts(entries@)) + "}"@),
    }
}

/// The last member of a message: its parameters, and the closing brace.
pub open spec fn message_end(params: Option<Seq<char>>) -> Seq<char> {
    match params {
        None => "}"@,
        Some(text) => ",\"params\":"@ + text + "}"@,
    }
}

/// The text of a request.
pub open spec fn request_text(id: u64, method: Seq<char>, params: Option<Seq<char>>) -> Seq<char> {
    "{\"jsonrpc\":\"2.0\",\"id\":"@ + decimal(id as nat) + ",\"method\":"@ + json_string(method)
        + message_end(params)
}

/// The text of a notification.
pub open spec fn notification_text(method: Seq<char>, params: Option<Seq<char>>) -> Seq<char> {
    "{\"jsonrpc\":\"2.0\",\"method\":"@ + json_string(method) + message_end(params)
}

/// The texts of the requests of a batch.
pub open spec fn call_texts(ids: Seq<u64>, calls: Seq<(&str, Option<ParamsSer>)>) -> Seq<
    Seq<char>,
> {
    Seq::new(
        calls.len(),
        |i: int| request_text(ids[i], calls[i].0@, params_text(calls[i].1)),
    )
}

/// The text of a batch.
pub open spec fn batch_text(ids: Seq<u64>, calls: Seq<(&str, Option<ParamsSer>)>) -> Seq<char> {
    "["@ + join(call_texts(ids, calls)) + "]"@
}

/// The text of a subscription ID.
pub open spec fn subscription_text(id: SubscriptionKey) -> Seq<char> {
    match id {
        SubscriptionKey::Num(n) => decimal(n as nat),
        SubscriptionKey::Str(text) => json_string(text),
    }
}

/// The text of the request that ends a subscription.
pub open spec fn unsubscribe_text(id: u64, method: Seq<char>, subscription: SubscriptionKey) -> Seq<
    char,
> {
    request_text(id, method, Some("["@ + subscription_text(subscription) + "]"@))
}

proof fn lemma_join_push(parts: Seq<Seq<char>>, part: Seq<char>)
    ensures
        parts.len() == 0 ==> join(parts.push(part)) == part,
        parts.len() > 0 ==> join(parts.push(part)) == join(parts) + ","@ + part,
{
    let all = parts.push(part);
    assert(all.drop_last() =~= parts);
    assert(all.last() == part);
}

/// Appends one more part to a joined text.
fn append_part(text: &mut String, part: &str, first: bool)
    ensures
        final(text)@ == if first {
            old(text)@ + part@
        } else {
            old(text)@ + ","@ + part@
        },
{
    if !first {
        text.append(",");
    }
    text.append(part);
}

/// Writes a string as JSON.
fn write_string(text: &str) -> (r: String)
    ensures
        r@ == json_string(text@),
{
    string_text(text).unwrap()
}

/// Writes some JSON values with commas between them.
fn write_values(values: &Vec<Value>) -> (r: String)
    ensures
        r@ == join(value_texts(values@)),
{
    let mut text = String::new();
    let mut i: usize = 0;
    assert(value_texts(values@).take(0) =~= seq![]);
    while i < values.len()
        invariant
            i <= values@.len(),
            text@ == join(value_texts(values@).take(i as int)),
        decreases values@.len() - i,
    {
        let part = value_text(&values[i]).unwrap();
        proof {
            let parts = value_texts(values@).take(i as int);
            lemma_join_push(parts, part@);
            assert(value_texts(values@).take(i + 1) =~= parts.push(part@));
            assert(parts.len() == i);
            if i == 0 {
                assert(text@ + part@ =~= part@);
            }
        }
        append_part(&mut text, part.as_str(), i == 0);
        i = i + 1;
    }
    assert(value_texts(values@).take(i as int) =~= value_texts(values@));
    text
}

/// Writes the members of a JSON object with commas between them.
fn write_members(entries: &Vec<(String, Value)>) -> (r: String)
    ensures
        r@ == join(member_texts(entries@)),
{
    let mut text = String::new();
    let mut i: usize = 0;
    assert(member_texts(entries@).take(0) =~= seq![]);
    while i < entries.len()
        invariant
            i <= entries@.len(),
            text@ == join(member_texts(entries@).take(i as int)),
        decreases entries@.len() - i,
    {
        let name = write_string(entries[i].0.as_str());
        let value = value_text(&entries[i].1).unwrap();
        let part = name.concat(":").concat(value.as_str());
        proof {
            let parts = member_texts(entries@).take(i as int);
            lemma_join_push(parts, part@);
            assert(member_texts(entries@).take(i + 1) =~= parts.push(part@));
            assert(parts.len() == i);
            if i == 0 {
                assert(text@ + part@ =~= part@);
            }
        }
        append_part(&mut text, part.as_str(), i == 0);
        i = i + 1;
    }
    assert(member_texts(entries@).take(i as int) =~= member_texts(entries@));
    text
}

/// Writes the end of a message, its parameters included.
fn write_end(params: &Option<ParamsSer>) -> (r: String)
    ensures
        r@ == message_end(params_text(*params)),
{
    let r = match params {
        None => "}".to_owned(),
        Some(ParamsSer::Array(values)) => ",\"params\":".to_owned().concat("[").concat(
            write_values(values).as_str(),
        ).concat("]").concat("}"),
        Some(ParamsSer::Object(entries)) => ",\"params\":".to_owned().concat("{").concat(
            write_members(entries).as_str(),
        ).concat("}").concat("}"),
    };
    assert(r@ =~= message_end(params_text(*params)));
    r
}

/// Writes a request.
pub fn write_request(id: u64, method: &str, params: &Option<ParamsSer>) -> (r: String)
    ensures
        r@ == request_text(id, method@, params_text(*params)),
{
    "{\"jsonrpc\":\"2.0\",\"id\":".to_owned().concat(decimal_text(id).as_str()).concat(
        ",\"method\":",
    ).concat(write_string(method).as_str()).concat(write_end(params).as_str())
}

/// Writes a notification.
pub fn write_notification(method: &str, params: &Option<ParamsSer>) -> (r: String)
    ensures
        r@ == notification_text(method@, params_text(*params)),
{
    "{\"jsonrpc\":\"2.0\",\"method\":".to_owned().concat(write_string(method).as_str()).concat(
        write_end(params).as_str(),
    )
}

/// Writes a batch of requests, each with the ID at its position.
pub fn write_batch(ids: &Vec<u64>, calls: &Vec<(&str, Option<ParamsSer>)>) -> (r: String)
    requires
        ids@.len() == calls@.len(),
    ensures
        r@ == batch_text(ids@, calls@),
{
    let mut text = String::new();
    let mut i: usize = 0;
    let ghost all = call_texts(ids@, calls@);
    assert(all.take(0) =~= seq![]);
    while i < calls.len()
        invariant
            ids@.len() == calls@.len(),
            i <= calls@.len(),
            all == call_texts(ids@, calls@),
            text@ == join(all.take(i as int)),
        decreases calls@.len() - i,
    {
        let part = write_request(ids[i], calls[i].0, &calls[i].1);
        proof {
            let parts = all.take(i as int);
            lemma_join_push(parts, part@);
            assert(all.take(i + 1) =~= parts.push(part@));
            assert(parts.len() == i);
            if i == 0 {
                assert(text@ + part@ =~= part@);
            }
        }
        append_part(&mut text, part.as_str(), i == 0);
        i = i + 1;
    }
    assert(all.take(i as int) =~= all);
    "[".to_owned().concat(text.as_str()).concat("]")
}

/// Writes the request that ends a subscription.
pub fn write_unsubscribe(id: u64, method: &str, subscription: &SubscriptionId) -> (r: String)
    ensures
        r@ == unsubscribe_text(id, method@, subscription@),
{
    let argument = match subscription {
        SubscriptionId::Num(n) => decimal_text(*n),
        SubscriptionId::Str(text) => write_string(text.as_str()),
    };
    let r = "{\"jsonrpc\":\"2.0\",\"id\":".to_owned().concat(decimal_text(id).as_str()).concat(
        ",\"method\":",
    ).concat(write_string(method).as_str()).concat(",\"params\":").concat("[").concat(
        argument.as_str(),
    ).concat("]").concat("}");
    assert(r@ =~= unsubscribe_text(id, method@, subscription@));
    r
}

} // verus!
