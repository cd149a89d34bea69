use jsonrpc_client::decimal::decimal_text;
use jsonrpc_client::error::ClientError;
use jsonrpc_client::frame::{
    write_batch, write_notification, write_request, write_unsubscribe,
};
use jsonrpc_client::types::{ParamsSer, SubscriptionId};
use serde_json::Value;

#[test]
fn numbers_are_written_in_decimal() {
    assert_eq!(decimal_text(0), "0");
    assert_eq!(decimal_text(9), "9");
    assert_eq!(decimal_text(10), "10");
    assert_eq!(decimal_text(1_234_567_890), "1234567890");
    assert_eq!(decimal_text(u64::MAX), u64::MAX.to_string());
}

#[test]
fn a_request_without_parameters() {
    assert_eq!(
        write_request(0, "say_hello", &None),
        r#"{"jsonrpc":"2.0","id":0,"method":"say_hello"}"#
    );
}

#[test]
fn a_request_with_parameters_by_position() {
    let params = Some(ParamsSer::Array(vec![
        Value::from(1),
        Value::from("two"),
        Value::Null,
        Value::from(vec![Value::from(true)]),
    ]));
    assert_eq!(
        write_request(u64::MAX, "f", &params),
        r#"{"jsonrpc":"2.0","id":18446744073709551615,"method":"f","params":[1,"two",null,[true]]}"#
    );
}

#[test]
fn empty_parameters_are_written() {
    assert_eq!(
        write_request(7, "f", &Some(ParamsSer::Array(vec![]))),
        r#"{"jsonrpc":"2.0","id":7,"method":"f","params":[]}"#
    );
    assert_eq!(
        write_request(7, "f", &Some(ParamsSer::Object(vec![]))),
        r#"{"jsonrpc":"2.0","id":7,"method":"f","params":{}}"#
    );
}

#[test]
fn a_request_with_parameters_by_name() {
    let params = Some(ParamsSer::Object(vec![
        ("b".to_string(), Value::from(1)),
        ("a".to_string(), Value::from("x")),
    ]));
    assert_eq!(
        write_request(3, "f", &params),
        r#"{"jsonrpc":"2.0","id":3,"method":"f","params":{"b":1,"a":"x"}}"#
    );
}

#[test]
fn strings_are_escaped() {
    let params = Some(ParamsSer::Object(vec![("k\"".to_string(), Value::from("line\nbreak"))]));
    assert_eq!(
        write_notification("say \"hi\"\\", &params),
        "{\"jsonrpc\":\"2.0\",\"method\":\"say \\\"hi\\\"\\\\\",\"params\":{\"k\\\"\":\"line\\nbreak\"}}"
    );
}

#[test]
fn a_notification_has_no_id() {
    assert_eq!(
        write_notification("notif", &None),
        r#"{"jsonrpc":"2.0","method":"notif"}"#
    );
}

#[test]
fn a_batch_is_an_array_of_requests() {
    let calls = vec![
        ("say_hello", None),
        ("add", Some(ParamsSer::Array(vec![Value::from(1), Value::from(2)]))),
    ];
    assert_eq!(
        write_batch(&vec![4, 5], &calls),
        concat_lines(&[
            r#"[{"jsonrpc":"2.0","id":4,"method":"say_hello"},"#,
            r#"{"jsonrpc":"2.0","id":5,"method":"add","params":[1,2]}]"#,
        ])
    );
    assert_eq!(write_batch(&vec![], &vec![]), "[]");
}

fn concat_lines(lines: &[&str]) -> String {
    lines.concat()
}

#[test]
fn a_request_to_unsubscribe_names_the_subscription() {
    assert_eq!(
        write_unsubscribe(1, "unsubscribe_hello", &SubscriptionId::Num(42)),
        r#"{"jsonrpc":"2.0","id":1,"method":"unsubscribe_hello","params":[42]}"#
    );
    assert_eq!(
        write_unsubscribe(1, "unsubscribe_hello", &SubscriptionId::Str("a\"b".to_string())),
        r#"{"jsonrpc":"2.0","id":1,"method":"unsubscribe_hello","params":["a\"b"]}"#
    );
}

#[test]
fn what_is_written_can_be_read_back() {
    let params = Some(ParamsSer::Array(vec![Value::from("\u{2665}"), Value::from(-1)]));
    let text = write_request(12, "m\t", &params);
    let value: Value = serde_json::from_str(&text).unwrap();
    assert_eq!(value["jsonrpc"], Value::from("2.0"));
    assert_eq!(value["id"], Value::from(12));
    assert_eq!(value["method"], Value::from("m\t"));
    assert_eq!(value["params"][0], Value::from("\u{2665}"));
    assert_eq!(value["params"][1], Value::from(-1));
}

#[test]
fn texts_with_different_ids_differ() {
    let a = write_request(1, "f", &None);
    let b = write_request(11, "f", &None);
    assert_ne!(a, b);
}

#[test]
fn errors_describe_themselves() {
    let text = |s: &str| s.to_string();
    let cases = vec![
        (ClientError::Request(text("{\"code\":1}")), text("{\"code\":1}")),
        (
            ClientError::Transport(text("broken pipe")),
            text("Networking or low-level protocol error: broken pipe"),
        ),
        (
            ClientError::RestartNeeded(text("x")),
            text("The background task been terminated because: x; restart required"),
        ),
        (ClientError::ParseError(text("expected u64")), text("Parse error: expected u64")),
        (ClientError::InvalidSubscriptionId, text("Invalid subscription ID")),
        (ClientError::InvalidRequestId, text("Invalid request ID")),
        (
            ClientError::MethodAlreadyRegistered(text("m")),
            text("Method: m was already registered"),
        ),
        (
            ClientError::SubscriptionNameConflict(text("m")),
            text("Cannot use the same method name for subscribe and unsubscribe, used: m"),
        ),
        (ClientError::RequestTimeout, text("Request timeout")),
        (ClientError::MaxSlotsExceeded, text("Maximum number of request exceeded")),
        (ClientError::Custom(text("why")), text("Custom error: why")),
    ];
    for (error, expected) in cases {
        assert_eq!(error.message(), expected);
    }
}
