use jsonrpc_client::client::{
    collect_reads, connected_unless, leave_reason, settle, settle_read, Client, ClientBuilder,
    ErrorFromBack, Outcome, Reading, Task, Waited,
};
use jsonrpc_client::error::ClientError;
use jsonrpc_client::types::{FrontToBack, ParamsSer, SubscriptionId, SubscriptionKind};
use serde_json::Value;
use std::time::Duration;

fn build(max_concurrent_requests: usize) -> (Client, Task, ErrorFromBack) {
    ClientBuilder::default().max_concurrent_requests(max_concurrent_requests).build()
}

#[test]
fn defaults() {
    let (client, task, _error) = ClientBuilder::default().build();
    assert_eq!(client.request_timeout(), Duration::from_secs(60));
    assert_eq!(task.backend.max_notifs_per_subscription(), 1024);
    assert_eq!(client.pending(), 0);
}

#[test]
fn default_allows_256_requests() {
    let (mut client, _task, _error) = ClientBuilder::default().build();
    for _ in 0..256 {
        assert!(client.notification("n", None).is_ok());
    }
    assert!(matches!(client.notification("n", None), Err(ClientError::MaxSlotsExceeded)));
}

#[test]
fn setters_do_not_disturb_each_other() {
    let builder = ClientBuilder::default()
        .max_notifs_per_subscription(4)
        .request_timeout(Duration::from_millis(1500))
        .max_concurrent_requests(1);
    let (mut client, task, _error) = builder.clone().build();
    assert_eq!(client.request_timeout(), Duration::from_millis(1500));
    assert_eq!(task.backend.max_notifs_per_subscription(), 4);
    assert!(client.request("a", None).is_ok());
    assert!(matches!(client.request("a", None), Err(ClientError::MaxSlotsExceeded)));
    let (_, task, _) = builder.max_notifs_per_subscription(5).build();
    assert_eq!(task.backend.max_notifs_per_subscription(), 5);
}

#[test]
fn there_is_a_largest_buffer() {
    assert!(ClientBuilder::default().can_build());
    assert!(ClientBuilder::default().max_concurrent_requests(usize::MAX / 4 - 1).can_build());
    assert!(!ClientBuilder::default().max_concurrent_requests(usize::MAX / 4).can_build());
    assert!(ClientBuilder::default().max_notifs_per_subscription(usize::MAX).can_build());
}

#[test]
fn messages_come_out_at_the_task() {
    let (client, mut task, _error) = build(2);
    assert!(client.to_back().is_connected_to(&task.from_front));
    let (message, _receiver) = client.subscribe_to_method("m");
    client.to_back().clone().try_send(message).unwrap();
    match task.from_front.try_recv() {
        Ok(FrontToBack::RegisterNotification(register)) => assert_eq!(register.method, "m"),
        _ => panic!("expected a registration"),
    }
}

#[test]
fn a_client_is_connected_while_its_task_lives() {
    let (client, task, _error) = build(1);
    assert!(client.is_connected());
    drop(task);
    assert!(!client.is_connected());
}

#[test]
fn a_closed_client_is_not_connected() {
    let (mut client, mut task, _error) = build(1);
    client.close();
    assert!(!client.is_connected());
    assert!(matches!(
        task.from_front.try_recv(),
        Err(futures_channel::mpsc::TryRecvError::Closed)
    ));
}

#[test]
fn connected_is_the_opposite_of_closed() {
    assert!(connected_unless(false));
    assert!(!connected_unless(true));
}

#[test]
fn a_notification_takes_a_slot_and_an_id() {
    let (mut client, _task, _error) = build(2);
    match client.notification("hello", None).unwrap() {
        FrontToBack::Notification(raw) => {
            assert_eq!(raw, r#"{"jsonrpc":"2.0","method":"hello"}"#)
        }
        _ => panic!("expected a notification"),
    }
    assert_eq!(client.pending(), 1);
    match client.request("hello", None).unwrap().0 {
        FrontToBack::Request(request) => assert_eq!(request.id, 1),
        _ => panic!("expected a request"),
    }
}

#[test]
fn a_request_carries_its_id_and_its_reply_channel() {
    let (mut client, _task, _error) = build(2);
    let params = Some(ParamsSer::Array(vec![Value::from(3)]));
    let (message, mut receiver) = client.request("add_one", params).unwrap();
    match message {
        FrontToBack::Request(request) => {
            assert_eq!(request.id, 0);
            assert_eq!(
                request.raw,
                r#"{"jsonrpc":"2.0","id":0,"method":"add_one","params":[3]}"#
            );
            let send_back = request.send_back.unwrap();
            assert!(send_back.is_connected_to(&receiver));
            send_back.send(Ok(Value::from(4))).unwrap();
        }
        _ => panic!("expected a request"),
    }
    assert_eq!(receiver.try_recv().unwrap().unwrap().unwrap(), Value::from(4));
}

#[test]
fn a_batch_takes_one_slot() {
    let (mut client, _task, _error) = build(1);
    let batch = vec![("a", None), ("b", None), ("c", None)];
    match client.batch_request(batch).unwrap().0 {
        FrontToBack::Batch(batch) => {
            assert_eq!(batch.ids, vec![0, 1, 2]);
            assert_eq!(
                batch.raw,
                [
                    r#"[{"jsonrpc":"2.0","id":0,"method":"a"},"#,
                    r#"{"jsonrpc":"2.0","id":1,"method":"b"},"#,
                    r#"{"jsonrpc":"2.0","id":2,"method":"c"}]"#,
                ]
                .concat()
            );
        }
        _ => panic!("expected a batch"),
    }
    assert_eq!(client.pending(), 1);
    let batch = vec![("a", None)];
    assert!(matches!(client.batch_request(batch), Err(ClientError::MaxSlotsExceeded)));
}

#[test]
fn a_subscription_has_two_ids() {
    let (mut client, _task, _error) = build(1);
    match client.subscribe("sub", None, "unsub").unwrap().0 {
        FrontToBack::Subscribe(request) => {
            assert_eq!(request.subscribe_id, 0);
            assert_eq!(request.unsubscribe_id, 1);
            assert_eq!(request.unsubscribe_method, "unsub");
            assert_eq!(request.raw, r#"{"jsonrpc":"2.0","id":0,"method":"sub"}"#);
        }
        _ => panic!("expected a subscription"),
    }
    assert!(matches!(
        client.subscribe("sub", None, "unsub"),
        Err(ClientError::MaxSlotsExceeded)
    ));
    client.release();
    match client.subscribe("sub", None, "unsub").unwrap().0 {
        FrontToBack::Subscribe(request) => assert_eq!(request.subscribe_id, 2),
        _ => panic!("expected a subscription"),
    }
}

#[test]
fn one_name_for_both_is_refused_before_anything_is_taken() {
    let (mut client, _task, _error) = build(0);
    match client.subscribe("same", None, "same") {
        Err(ClientError::SubscriptionNameConflict(name)) => assert_eq!(name, "same"),
        _ => panic!("expected a conflict"),
    }
    assert_eq!(client.pending(), 0);
}

#[test]
fn handlers_need_no_slot() {
    let (client, _task, _error) = build(0);
    match client.subscribe_to_method("m").0 {
        FrontToBack::RegisterNotification(register) => assert_eq!(register.method, "m"),
        _ => panic!("expected a registration"),
    }
}

#[test]
fn what_the_caller_gets() {
    assert!(matches!(settle(Waited::Answered(Ok(5))), Outcome::Value(5)));
    assert!(matches!(
        settle::<u8>(Waited::Answered(Err(ClientError::InvalidRequestId))),
        Outcome::Failed(ClientError::InvalidRequestId)
    ));
    assert!(matches!(settle::<u8>(Waited::Canceled), Outcome::BackendError));
    assert!(matches!(
        settle::<u8>(Waited::TimedOut),
        Outcome::Failed(ClientError::RequestTimeout)
    ));
}

fn read(value: Value) -> Result<u64, String> {
    serde_json::from_value(value).map_err(|error| error.to_string())
}

#[test]
fn a_result_that_cannot_be_read_is_a_parse_error() {
    assert_eq!(settle_read(read(Value::from(3))).unwrap(), 3);
    match settle_read(read(Value::from("x"))) {
        Err(ClientError::ParseError(reason)) => {
            assert_eq!(reason, read(Value::from("x")).unwrap_err())
        }
        _ => panic!("expected a parse error"),
    }
}

#[test]
fn batch_results_are_read_together() {
    let reads = |values: Vec<Value>| values.into_iter().map(read).collect();
    let values = vec![Value::from(1), Value::from(2), Value::from(3)];
    assert_eq!(collect_reads(reads(values)).unwrap(), vec![1, 2, 3]);
    assert!(collect_reads(reads(vec![])).unwrap().is_empty());
    let values = vec![Value::from(1), Value::from("x"), Value::from(3), Value::Null];
    let expected = format!("Parse error: {}", read(Value::from("x")).unwrap_err());
    assert_eq!(collect_reads(reads(values)).unwrap_err().message(), expected);
}

fn restart_reason(error: &ClientError) -> String {
    match error {
        ClientError::RestartNeeded(text) => text.clone(),
        _ => panic!("expected a restart"),
    }
}

#[test]
fn the_reason_is_taken_once_and_told_again() {
    let (_client, task, error) = build(1);
    let reason = ClientError::Custom("gone".to_string());
    assert!(leave_reason(task.front_error, reason).is_ok());
    let mut receiver = match error.read_error() {
        Reading::Pending(receiver) => receiver,
        Reading::Done(..) => panic!("nothing was taken yet"),
    };
    let reason = receiver.try_recv().unwrap();
    let (kept, first) = ErrorFromBack::finish(reason);
    assert_eq!(restart_reason(&first), "Custom error: gone");
    match kept.read_error() {
        Reading::Done(kept, second) => {
            assert_eq!(restart_reason(&second), "Custom error: gone");
            assert!(matches!(kept, ErrorFromBack::Read(text) if text == "Custom error: gone"));
        }
        Reading::Pending(_) => panic!("the reason was taken"),
    }
}

#[test]
fn a_missing_reason_has_a_text_too() {
    let (_client, task, error) = build(1);
    drop(task);
    match error.read_error() {
        Reading::Pending(mut receiver) => assert!(receiver.try_recv().is_err()),
        Reading::Done(..) => panic!("nothing was taken yet"),
    }
    let (_, error) = ErrorFromBack::finish(None);
    assert_eq!(
        restart_reason(&error),
        "Error reason could not be found. This is a bug. Please open an issue."
    );
}

#[test]
fn a_reason_that_nobody_waits_for_is_given_back() {
    let (_client, task, error) = build(1);
    drop(error);
    assert!(matches!(
        leave_reason(task.front_error, ClientError::RequestTimeout),
        Err(ClientError::RequestTimeout)
    ));
}

#[test]
fn what_a_dropped_stream_tells() {
    let kind = SubscriptionKind::Subscription(SubscriptionId::Num(7));
    assert!(matches!(
        kind.close_message(),
        FrontToBack::SubscriptionClosed(SubscriptionId::Num(7))
    ));
    let kind = SubscriptionKind::Method("m".to_string());
    assert!(matches!(
        kind.close_message(),
        FrontToBack::UnregisterNotification(method) if method == "m"
    ));
}
