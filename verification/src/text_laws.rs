//! What the texts of the library show: numbers, parameters, requests,
//! notifications, batches and errors.

use crate::action::{Decoded, Incoming};
use crate::decimal::decimal;
use crate::error::ClientError;
use crate::frame::{
    batch_text, call_texts, join, member_texts, notification_text, params_text, request_text,
    subscription_text, unsubscribe_text, value_texts,
};
use crate::json::{json_string, json_text};
use crate::types::{Id, ParamsSer, SubscriptionId, SubscriptionKey};
use serde_json::Value;
use vstd::prelude::*;

verus! {

/// The number that a text of decimal digits stands for.
pub open spec fn number_of(text: Seq<char>) -> int
    decreases text.len(),
{
    if text.len() == 0 {
        0
    } else {
        number_of(text.drop_last()) * 10 + (text.last() as int - '0' as int)
    }
}

/// The notation of a number is read back as that number, holds nothing but
/// digits, and has no leading zero.
pub proof fn decimal_reads_back(n: nat)
    ensures
        number_of(decimal(n)) == n,
        decimal(n).len() > 0,
        decimal(n).len() > 1 ==> decimal(n)[0] != '0',
        forall|i: int| 0 <= i < decimal(n).len() ==> '0' <= #[trigger] decimal(n)[i] <= '9',
    decreases n,
{
    reveal_with_fuel(number_of, 2);
    let text = decimal(n);
    if n < 10 {
        assert(text.drop_last() =~= seq![]);
    } else {
        let front = decimal(n / 10);
        decimal_reads_back(n / 10);
        assert(text.drop_last() =~= front);
        assert forall|i: int| 0 <= i < text.len() implies '0' <= #[trigger] text[i] <= '9' by {
            if i < front.len() {
                assert(text[i] == front[i]);
            }
        }
        assert(text[0] == front[0]);
        if front.len() == 1 {
            assert(number_of(front.drop_last()) == 0) by {
                assert(front.drop_last() =~= seq![]);
            }
            assert(front.last() == front[0]);
        }
    }
}

/// Joined parts are nothing for no part and the part itself for one.
pub proof fn join_of_few(part: Seq<char>)
    ensures
        join(seq![]) == Seq::<char>::empty(),
        join(seq![part]) == part,
{
}

/// Between joined parts stands a comma, and nothing else, wherever the parts
/// are divided.
pub proof fn join_divides(a: Seq<Seq<char>>, b: Seq<Seq<char>>)
    requires
        a.len() > 0,
        b.len() > 0,
    ensures
        join(a + b) == join(a) + seq![','] + join(b),
    decreases b.len(),
{
    reveal_strlit(",");
    assert(","@ =~= seq![',']);
    let all = a + b;
    assert(all.drop_last() =~= a + b.drop_last());
    assert(all.last() == b.last());
    if b.len() == 1 {
        assert(a + b.drop_last() =~= a);
        assert(b[0] == b.last());
    } else {
        join_divides(a, b.drop_last());
        assert(join(all) =~= join(a) + seq![','] + join(b));
    }
}

/// Parts that are equal but at one place, and joined give one text, are equal
/// at that place too.
pub proof fn join_shows_each_part(a: Seq<Seq<char>>, b: Seq<Seq<char>>, k: int)
    requires
        a.len() == b.len(),
        0 <= k < a.len(),
        forall|i: int| 0 <= i < a.len() && i != k ==> #[trigger] a[i] == b[i],
        join(a) == join(b),
    ensures
        a[k] == b[k],
{
    let n = a.len() as int;
    let (pre, post) = (join(a.take(k)), join(a.skip(k + 1)));
    assert(a.take(k) =~= b.take(k));
    assert(a.skip(k + 1) =~= b.skip(k + 1));
    lemma_join_around(a, k);
    lemma_join_around(b, k);
    let left = if k == 0 {
        Seq::<char>::empty()
    } else {
        pre + seq![',']
    };
    let right = if k == n - 1 {
        Seq::<char>::empty()
    } else {
        seq![','] + post
    };
    lemma_cancel(left, a[k], b[k], right);
}

proof fn lemma_join_around(parts: Seq<Seq<char>>, k: int)
    requires
        0 <= k < parts.len(),
    ensures
        join(parts) == (if k == 0 {
            Seq::<char>::empty()
        } else {
            join(parts.take(k)) + seq![',']
        }) + parts[k] + (if k == parts.len() - 1 {
            Seq::<char>::empty()
        } else {
            seq![','] + join(parts.skip(k + 1))
        }),
{
    let one = seq![parts[k]];
    join_of_few(parts[k]);
    let tail = parts.skip(k);
    if k < parts.len() - 1 {
        assert(tail =~= one + parts.skip(k + 1));
        join_divides(one, parts.skip(k + 1));
    } else {
        assert(tail =~= one);
    }
    if k > 0 {
        assert(parts =~= parts.take(k) + tail);
        join_divides(parts.take(k), tail);
    } else {
        assert(parts =~= tail);
    }
    assert(join(parts) =~= (if k == 0 {
        Seq::<char>::empty()
    } else {
        join(parts.take(k)) + seq![',']
    }) + parts[k] + (if k == parts.len() - 1 {
        Seq::<char>::empty()
    } else {
        seq![','] + join(parts.skip(k + 1))
    }));
}

/// What stands between the same two texts can be told from the whole.
proof fn lemma_cancel(left: Seq<char>, a: Seq<char>, b: Seq<char>, right: Seq<char>)
    requires
        left + a + right == left + b + right,
    ensures
        a == b,
{
    let whole = left + a + right;
    assert(whole.len() == left.len() + a.len() + right.len());
    assert(whole.len() == left.len() + b.len() + right.len());
    assert forall|i: int| 0 <= i < a.len() implies a[i] == b[i] by {
        assert(whole[left.len() + i] == a[i]);
        assert((left + b + right)[left.len() + i] == b[i]);
    }
    assert(a =~= b);
}

/// Parameters are written whole: by position as a JSON array of the values, by
/// name as a JSON object of the members, each in its order; no parameters are
/// not written.
pub proof fn params_are_written_whole(
    values: Vec<Value>,
    value_parts: Seq<Seq<char>>,
    entries: Vec<(String, Value)>,
    entry_parts: Seq<Seq<char>>,
)
    requires
        value_parts.len() == values@.len(),
        forall|i: int|
            0 <= i < values@.len() ==> #[trigger] value_parts[i] == json_text(values@[i]),
        entry_parts.len() == entries@.len(),
        forall|i: int|
            0 <= i < entries@.len() ==> #[trigger] entry_parts[i] == json_string(entries@[i].0@)
                + seq![':'] + json_text(entries@[i].1),
    ensures
        params_text(None) is None,
        params_text(Some(ParamsSer::Array(values))) == Some(
            seq!['['] + join(value_parts) + seq![']'],
        ),
        params_text(Some(ParamsSer::Object(entries))) == Some(
            seq!['{'] + join(entry_parts) + seq!['}'],
        ),
{
    reveal_strlit("[");
    reveal_strlit("]");
    reveal_strlit("{");
    reveal_strlit("}");
    reveal_strlit(":");
    assert("["@ =~= seq!['[']);
    assert("]"@ =~= seq![']']);
    assert("{"@ =~= seq!['{']);
    assert("}"@ =~= seq!['}']);
    assert(":"@ =~= seq![':']);
    assert(value_texts(values@) =~= value_parts);
    assert(member_texts(entries@) =~= entry_parts);
}

/// Two lists of parameters by position that differ in the text of one value,
/// wherever it stands, have different texts.
pub proof fn params_show_each_value(a: Vec<Value>, b: Vec<Value>, k: int)
    requires
        a@.len() == b@.len(),
        0 <= k < a@.len(),
        forall|i: int| 0 <= i < a@.len() && i != k ==> #[trigger] a@[i] == b@[i],
        params_text(Some(ParamsSer::Array(a))) == params_text(Some(ParamsSer::Array(b))),
    ensures
        json_text(a@[k]) == json_text(b@[k]),
{
    let parts_a = Seq::new(a@.len(), |i: int| json_text(a@[i]));
    let parts_b = Seq::new(b@.len(), |i: int| json_text(b@[i]));
    let text_a = value_texts(a@);
    let text_b = value_texts(b@);
    assert(text_a =~= parts_a);
    assert(text_b =~= parts_b);
    lemma_cancel("["@, join(text_a), join(text_b), "]"@);
    join_shows_each_part(parts_a, parts_b, k);
}

/// Two lists of parameters by name that differ in the text of one member,
/// wherever it stands, have different texts.
pub proof fn params_show_each_member(a: Vec<(String, Value)>, b: Vec<(String, Value)>, k: int)
    requires
        a@.len() == b@.len(),
        0 <= k < a@.len(),
        forall|i: int| 0 <= i < a@.len() && i != k ==> #[trigger] a@[i] == b@[i],
        params_text(Some(ParamsSer::Object(a))) == params_text(Some(ParamsSer::Object(b))),
    ensures
        json_string(a@[k].0@) + seq![':'] + json_text(a@[k].1) == json_string(b@[k].0@) + seq![
            ':',
        ] + json_text(b@[k].1),
{
    reveal_strlit(":");
    assert(":"@ =~= seq![':']);
    let text_a = member_texts(a@);
    let text_b = member_texts(b@);
    lemma_cancel("{"@, join(text_a), join(text_b), "}"@);
    join_shows_each_part(text_a, text_b, k);
}

/// A notification is the request with the same method and parameters, but for
/// the member with the ID. Both name the protocol, then the method, then the
/// parameters, if there are any.
pub proof fn notification_is_a_request_without_id(
    id: u64,
    method: Seq<char>,
    params: Option<Seq<char>>,
)
    ensures
        ({
            let head = "{\"jsonrpc\":\"2.0\","@;
            let rest = "\"method\":"@ + json_string(method) + match params {
                None => "}"@,
                Some(text) => ",\"params\":"@ + text + "}"@,
            };
            &&& notification_text(method, params) == head + rest
            &&& request_text(id, method, params) == head + "\"id\":"@ + decimal(id as nat) + ","@
                + rest
        }),
{
    reveal_strlit("{\"jsonrpc\":\"2.0\",");
    reveal_strlit("{\"jsonrpc\":\"2.0\",\"id\":");
    reveal_strlit("{\"jsonrpc\":\"2.0\",\"method\":");
    reveal_strlit("\"id\":");
    reveal_strlit("\"method\":");
    reveal_strlit(",\"method\":");
    reveal_strlit(",");
    let head = "{\"jsonrpc\":\"2.0\","@;
    let end = match params {
        None => "}"@,
        Some(text) => ",\"params\":"@ + text + "}"@,
    };
    let rest = "\"method\":"@ + json_string(method) + end;
    assert("{\"jsonrpc\":\"2.0\",\"method\":"@ =~= head + "\"method\":"@);
    assert("{\"jsonrpc\":\"2.0\",\"id\":"@ =~= head + "\"id\":"@);
    assert(",\"method\":"@ =~= ","@ + "\"method\":"@);
    assert(notification_text(method, params) =~= head + rest);
    assert(request_text(id, method, params) =~= head + "\"id\":"@ + decimal(id as nat) + ","@
        + rest);
}

/// What a message ends with, if it is not a request but the rest of one.
proof fn lemma_end_shows_params(
    left: Seq<char>,
    a: Option<Seq<char>>,
    b: Option<Seq<char>>,
    end_a: Seq<char>,
    end_b: Seq<char>,
)
    requires
        left + end_a == left + end_b,
        a matches Some(text) ==> end_a == ",\"params\":"@ + text + "}"@,
        a is None ==> end_a == "}"@,
        b matches Some(text) ==> end_b == ",\"params\":"@ + text + "}"@,
        b is None ==> end_b == "}"@,
    ensures
        a == b,
{
    reveal_strlit("}");
    reveal_strlit(",\"params\":");
    let none = Seq::<char>::empty();
    assert(left + end_a + none =~= left + end_a);
    assert(left + end_b + none =~= left + end_b);
    lemma_cancel(left, end_a, end_b, none);
    if a is Some && b is Some {
        lemma_cancel(",\"params\":"@, a->0, b->0, "}"@);
    } else if a is Some {
        assert(end_a[0] == ',');
        assert(end_b[0] == '}');
    } else if b is Some {
        assert(end_b[0] == ',');
        assert(end_a[0] == '}');
    }
}

/// The text of a message shows its parameters, and whether it has any.
pub proof fn messages_show_their_params(
    id: u64,
    method: Seq<char>,
    a: Option<Seq<char>>,
    b: Option<Seq<char>>,
)
    ensures
        request_text(id, method, a) == request_text(id, method, b) ==> a == b,
        notification_text(method, a) == notification_text(method, b) ==> a == b,
{
    notification_is_a_request_without_id(id, method, a);
    notification_is_a_request_without_id(id, method, b);
    let head = "{\"jsonrpc\":\"2.0\","@;
    let end_a = match a {
        None => "}"@,
        Some(text) => ",\"params\":"@ + text + "}"@,
    };
    let end_b = match b {
        None => "}"@,
        Some(text) => ",\"params\":"@ + text + "}"@,
    };
    let name = "\"method\":"@ + json_string(method);
    let with_id = head + "\"id\":"@ + decimal(id as nat) + ","@ + name;
    assert(notification_text(method, a) =~= (head + name) + end_a);
    assert(notification_text(method, b) =~= (head + name) + end_b);
    assert(request_text(id, method, a) =~= with_id + end_a);
    assert(request_text(id, method, b) =~= with_id + end_b);
    if request_text(id, method, a) == request_text(id, method, b) {
        lemma_end_shows_params(with_id, a, b, end_a, end_b);
    }
    if notification_text(method, a) == notification_text(method, b) {
        lemma_end_shows_params(head + name, a, b, end_a, end_b);
    }
}

/// The text of a message shows its method.
pub proof fn messages_show_their_method(
    id: u64,
    a: Seq<char>,
    b: Seq<char>,
    params: Option<Seq<char>>,
)
    ensures
        request_text(id, a, params) == request_text(id, b, params) ==> json_string(a)
            == json_string(b),
        notification_text(a, params) == notification_text(b, params) ==> json_string(a)
            == json_string(b),
{
    notification_is_a_request_without_id(id, a, params);
    notification_is_a_request_without_id(id, b, params);
    let head = "{\"jsonrpc\":\"2.0\","@ + "\"method\":"@;
    let with_id = "{\"jsonrpc\":\"2.0\","@ + "\"id\":"@ + decimal(id as nat) + ","@
        + "\"method\":"@;
    let end = match params {
        None => "}"@,
        Some(text) => ",\"params\":"@ + text + "}"@,
    };
    assert(notification_text(a, params) =~= head + json_string(a) + end);
    assert(notification_text(b, params) =~= head + json_string(b) + end);
    assert(request_text(id, a, params) =~= with_id + json_string(a) + end);
    assert(request_text(id, b, params) =~= with_id + json_string(b) + end);
    if request_text(id, a, params) == request_text(id, b, params) {
        lemma_cancel(with_id, json_string(a), json_string(b), end);
    }
    if notification_text(a, params) == notification_text(b, params) {
        lemma_cancel(head, json_string(a), json_string(b), end);
    }
}

/// A batch is a JSON array, and its element at each place is the text that a
/// single request has with the ID, the method and the parameters at that place.
pub proof fn batch_is_an_array_of_requests(
    ids: Seq<u64>,
    calls: Seq<(&str, Option<ParamsSer>)>,
    parts: Seq<Seq<char>>,
)
    requires
        ids.len() == calls.len(),
        parts.len() == calls.len(),
        forall|k: int|
            0 <= k < calls.len() ==> #[trigger] parts[k] == request_text(
                ids[k],
                calls[k].0@,
                params_text(calls[k].1),
            ),
    ensures
        batch_text(ids, calls) == seq!['['] + join(parts) + seq![']'],
{
    reveal_strlit("[");
    reveal_strlit("]");
    assert("["@ =~= seq!['[']);
    assert("]"@ =~= seq![']']);
    assert(call_texts(ids, calls) =~= parts);
}

/// Two batches that are equal but for the method and the parameters of one
/// call, wherever it stands, have one text only if that call, sent by itself,
/// has one text.
pub proof fn batch_shows_each_call(
    ids: Seq<u64>,
    a: Seq<(&str, Option<ParamsSer>)>,
    b: Seq<(&str, Option<ParamsSer>)>,
    k: int,
)
    requires
        ids.len() == a.len(),
        a.len() == b.len(),
        0 <= k < a.len(),
        forall|i: int| 0 <= i < a.len() && i != k ==> #[trigger] a[i] == b[i],
        batch_text(ids, a) == batch_text(ids, b),
    ensures
        request_text(ids[k], a[k].0@, params_text(a[k].1)) == request_text(
            ids[k],
            b[k].0@,
            params_text(b[k].1),
        ),
        a[k].0@ == b[k].0@ ==> params_text(a[k].1) == params_text(b[k].1),
{
    let parts_a = Seq::new(
        a.len(),
        |i: int| request_text(ids[i], a[i].0@, params_text(a[i].1)),
    );
    let parts_b = Seq::new(
        b.len(),
        |i: int| request_text(ids[i], b[i].0@, params_text(b[i].1)),
    );
    batch_is_an_array_of_requests(ids, a, parts_a);
    batch_is_an_array_of_requests(ids, b, parts_b);
    lemma_cancel(seq!['['], join(parts_a), join(parts_b), seq![']']);
    join_shows_each_part(parts_a, parts_b, k);
    messages_show_their_params(ids[k], a[k].0@, params_text(a[k].1), params_text(b[k].1));
}

/// The request that ends a subscription has the subscription ID as its one
/// parameter, in the form in which the server gave it.
pub proof fn unsubscribing_names_the_subscription(
    id: u64,
    method: Seq<char>,
    number: u64,
    text: Seq<char>,
)
    ensures
        subscription_text(SubscriptionKey::Num(number)) == decimal(number as nat),
        subscription_text(SubscriptionKey::Str(text)) == json_string(text),
        unsubscribe_text(id, method, SubscriptionKey::Num(number)) == request_text(
            id,
            method,
            Some(seq!['['] + decimal(number as nat) + seq![']']),
        ),
        unsubscribe_text(id, method, SubscriptionKey::Str(text)) == request_text(
            id,
            method,
            Some(seq!['['] + json_string(text) + seq![']']),
        ),
{
    reveal_strlit("[");
    reveal_strlit("]");
    assert("["@ =~= seq!['[']);
    assert("]"@ =~= seq![']']);
}

/// Each message counts as what it can be read as; where it can be read as
/// several, the order is a single reply, a subscription's notification, another
/// notification, a batch, a failure. Only what can be read as none of them is
/// unparsable.
pub proof fn message_counts_as_what_it_is(decoded: Decoded)
    ensures
        decoded.single matches Some(response) ==> decoded.shape() == Incoming::Single(response),
        decoded.single is None && decoded.subscription is Some ==> decoded.shape()
            == Incoming::Subscription(decoded.subscription->0),
        decoded.single is None && decoded.subscription is None && decoded.notification is Some
            ==> decoded.shape() == Incoming::Notification(decoded.notification->0),
        decoded.single is None && decoded.subscription is None && decoded.notification is None
            && decoded.batch is Some ==> decoded.shape() == Incoming::Batch(decoded.batch->0),
        decoded.single is None && decoded.subscription is None && decoded.notification is None
            && decoded.batch is None && decoded.error is Some ==> decoded.shape()
            == Incoming::Failure(decoded.error->0),
        decoded.shape() is Unparsable <==> (decoded.single is None && decoded.subscription is None
            && decoded.notification is None && decoded.batch is None && decoded.error is None),
{
}

/// A message that can be read in one way only counts as just that, and keeps
/// all that was read.
pub proof fn message_read_in_one_way_is_that(decoded: Decoded)
    ensures
        decoded.shape() matches Incoming::Single(response) ==> decoded.single == Some(response),
        decoded.shape() matches Incoming::Subscription(response) ==> decoded.subscription == Some(
            response,
        ) && decoded.single is None,
        decoded.shape() matches Incoming::Notification(notification) ==> decoded.notification
            == Some(notification) && decoded.single is None && decoded.subscription is None,
        decoded.shape() matches Incoming::Batch(responses) ==> decoded.batch == Some(responses)
            && decoded.single is None && decoded.subscription is None
            && decoded.notification is None,
        decoded.shape() matches Incoming::Failure(error) ==> decoded.error == Some(error)
            && decoded.single is None && decoded.subscription is None
            && decoded.notification is None && decoded.batch is None,
{
}

/// IDs are told apart by what the server wrote, and a request ID counts only
/// if it is a number.
pub proof fn ids_are_what_the_server_wrote(
    a: SubscriptionId,
    b: SubscriptionId,
    number: u64,
    text: String,
)
    ensures
        SubscriptionId::Num(number)@ == SubscriptionKey::Num(number),
        SubscriptionId::Str(text)@ == SubscriptionKey::Str(text@),
        a@ == b@ <==> match (a, b) {
            (SubscriptionId::Num(m), SubscriptionId::Num(n)) => m == n,
            (SubscriptionId::Str(s), SubscriptionId::Str(t)) => s@ == t@,
            _ => false,
        },
        Id::Number(number).number() == Some(number),
        Id::Null.number() is None,
        Id::Str(text).number() is None,
{
}

/// An error shows the text that it carries, and which kind of error it is.
pub proof fn errors_show_their_text(text: String)
    ensures
        ClientError::Request(text).describe() == text@,
        ClientError::Transport(text).describe() == "Networking or low-level protocol error: "@
            + text@,
        ClientError::RestartNeeded(text).describe()
            == "The background task been terminated because: "@ + text@ + "; restart required"@,
        ClientError::ParseError(text).describe() == "Parse error: "@ + text@,
        ClientError::MethodAlreadyRegistered(text).describe() == "Method: "@ + text@
            + " was already registered"@,
        ClientError::SubscriptionNameConflict(text).describe()
            == "Cannot use the same method name for subscribe and unsubscribe, used: "@ + text@,
        ClientError::Custom(text).describe() == "Custom error: "@ + text@,
        ClientError::InvalidSubscriptionId.describe() == "Invalid subscription ID"@,
        ClientError::InvalidRequestId.describe() == "Invalid request ID"@,
        ClientError::RequestTimeout.describe() == "Request timeout"@,
        ClientError::MaxSlotsExceeded.describe() == "Maximum number of request exceeded"@,
{
}

} // verus!
