use futures_channel::mpsc::{Receiver, TryRecvError};
use futures_channel::{mpsc, oneshot};
use jsonrpc_client::action::{Action, Decoded, Event, Incoming, Reply, Sent};
use jsonrpc_client::backend::Backend;
use jsonrpc_client::channel::Uptake;
use jsonrpc_client::client::{Client, ClientBuilder};
use jsonrpc_client::error::ClientError;
use jsonrpc_client::manager::RequestManager;
use jsonrpc_client::types::{
    BatchMessage, FrontToBack, Id, Notification, RequestMessage, Response, RpcError,
    SubscriptionId, SubscriptionResponse,
};
use serde_json::Value;

type Answer<T> = oneshot::Receiver<Result<T, ClientError>>;

fn start(max_notifs_per_subscription: usize) -> (Client, Backend) {
    let (client, task, _error) = ClientBuilder::default()
        .max_notifs_per_subscription(max_notifs_per_subscription)
        .build();
    (client, task.backend)
}

fn reply(id: u64, result: Value) -> Event {
    Event::Message(Incoming::Single(Response { id: Id::Number(id), result }))
}

fn failure(id: u64, message: &str) -> Event {
    let message = message.to_string();
    Event::Message(Incoming::Failure(RpcError { id: Id::Number(id), message }))
}

fn pushed(subscription: SubscriptionId, result: Value) -> Event {
    Event::Message(Incoming::Subscription(SubscriptionResponse { subscription, result }))
}

fn notified(method: &str, params: Value) -> Event {
    Event::Message(Incoming::Notification(Notification { method: method.to_string(), params }))
}

fn result_at<T>(receiver: &mut Answer<T>) -> Result<T, ClientError> {
    receiver.try_recv().expect("the sender was dropped").expect("nothing arrived")
}

/// Runs the machine until it waits or ends; every text is sent successfully.
/// Returns the texts, and whether the machine ended.
fn run(backend: &mut Backend, event: Event) -> (Vec<String>, Option<Option<ClientError>>) {
    let mut texts = Vec::new();
    let mut action = backend.on_event(event);
    loop {
        action = match backend.advance(action) {
            Action::Wait => return (texts, None),
            Action::Send { raw, sent } => {
                texts.push(raw);
                assert!(backend.can_enter(&sent));
                backend.on_sent(sent, Ok(()))
            }
            Action::Terminate(reason) => return (texts, Some(reason)),
            _ => panic!("there was more to do"),
        }
    }
}

/// Runs the machine and expects it to go on.
fn go(backend: &mut Backend, event: Event) -> Vec<String> {
    let (texts, ended) = run(backend, event);
    assert!(ended.is_none());
    texts
}

fn reject(backend: &mut Backend, event: Event) {
    let (texts, ended) = run(backend, event);
    assert!(texts.is_empty());
    assert!(matches!(ended, Some(Some(ClientError::InvalidRequestId))));
}

fn subscribe(
    client: &mut Client,
    backend: &mut Backend,
    id: u64,
    subscription: Value,
) -> (Receiver<Value>, SubscriptionId) {
    let (message, mut receiver) =
        client.subscribe("subscribe_hello", None, "unsubscribe_hello").unwrap();
    assert_eq!(
        go(backend, Event::Front(message)),
        vec![format!("{{\"jsonrpc\":\"2.0\",\"id\":{},\"method\":\"subscribe_hello\"}}", id)]
    );
    assert!(go(backend, reply(id, subscription)).is_empty());
    client.release();
    result_at(&mut receiver).unwrap()
}

#[test]
fn a_call_gets_its_reply() {
    let (mut client, mut backend) = start(4);
    let (message, mut receiver) = client.request("say_hello", None).unwrap();
    assert_eq!(
        go(&mut backend, Event::Front(message)),
        vec![r#"{"jsonrpc":"2.0","id":0,"method":"say_hello"}"#]
    );
    assert!(receiver.try_recv().unwrap().is_none());
    assert!(go(&mut backend, reply(0, Value::from("hello"))).is_empty());
    assert_eq!(result_at(&mut receiver).unwrap(), Value::from("hello"));
    reject(&mut backend, reply(0, Value::from("hello")));
}

#[test]
fn replies_find_their_calls_in_any_order() {
    let (mut client, mut backend) = start(4);
    let mut receivers = Vec::new();
    for _ in 0..3 {
        let (message, receiver) = client.request("f", None).unwrap();
        go(&mut backend, Event::Front(message));
        receivers.push(receiver);
    }
    for id in [2u64, 0, 1] {
        go(&mut backend, reply(id, Value::from(id * 10)));
    }
    for (id, receiver) in receivers.iter_mut().enumerate() {
        assert_eq!(result_at(receiver).unwrap(), Value::from(id as u64 * 10));
    }
}

#[test]
fn a_call_whose_caller_is_gone_is_forgotten() {
    let (mut client, mut backend) = start(4);
    let (message, receiver) = client.request("f", None).unwrap();
    go(&mut backend, Event::Front(message));
    drop(receiver);
    assert!(go(&mut backend, reply(0, Value::Null)).is_empty());
    reject(&mut backend, reply(0, Value::Null));
}

#[test]
fn a_failed_call_is_told_the_report() {
    let (mut client, mut backend) = start(4);
    let (message, mut receiver) = client.request("f", None).unwrap();
    go(&mut backend, Event::Front(message));
    go(&mut backend, failure(0, "{\"code\":-32601}"));
    match result_at(&mut receiver) {
        Err(ClientError::Request(text)) => assert_eq!(text, "{\"code\":-32601}"),
        _ => panic!("expected the report"),
    }
    reject(&mut backend, failure(0, ""));
}

#[test]
fn unknown_ids_end_the_task() {
    let (_client, mut backend) = start(4);
    reject(&mut backend, reply(5, Value::Null));
    reject(&mut backend, failure(5, ""));
    for id in [Id::Null, Id::Str("0".to_string())] {
        let message = Incoming::Single(Response { id, result: Value::Null });
        reject(&mut backend, Event::Message(message));
    }
    let message = Incoming::Failure(RpcError { id: Id::Null, message: String::new() });
    reject(&mut backend, Event::Message(message));
    reject(&mut backend, Event::Message(Incoming::Batch(vec![])));
}

#[test]
fn a_call_that_cannot_be_sent_is_told_why() {
    let (mut client, mut backend) = start(4);
    let (message, mut receiver) = client.request("f", None).unwrap();
    let action = match backend.on_event(Event::Front(message)) {
        Action::Send { sent, .. } => backend.on_sent(sent, Err("broken pipe".to_string())),
        _ => panic!("expected a text"),
    };
    match action {
        Action::Deliver(reply) => assert!(matches!(backend.deliver(reply), Action::Wait)),
        _ => panic!("expected an answer"),
    }
    match result_at(&mut receiver) {
        Err(ClientError::Transport(text)) => assert_eq!(text, "broken pipe"),
        _ => panic!("expected the reason"),
    }
    reject(&mut backend, reply(0, Value::Null));
}

#[test]
fn a_call_without_a_caller_waits_for_nothing() {
    let (_client, mut backend) = start(4);
    let request = RequestMessage { raw: "x".to_string(), id: 3, send_back: None };
    assert_eq!(go(&mut backend, Event::Front(FrontToBack::Request(request))), vec!["x"]);
    assert!(go(&mut backend, reply(3, Value::Null)).is_empty());
    let request = RequestMessage { raw: "x".to_string(), id: 3, send_back: None };
    match backend.on_event(Event::Front(FrontToBack::Request(request))) {
        Action::Send { sent, .. } => {
            assert!(matches!(backend.on_sent(sent, Err(String::new())), Action::Wait))
        }
        _ => panic!("expected a text"),
    }
}

#[test]
fn an_id_in_use_cannot_be_entered() {
    let (mut client, mut backend) = start(4);
    let (message, _receiver) = client.request("f", None).unwrap();
    go(&mut backend, Event::Front(message));
    assert!(!backend.can_enter(&Sent::Request { id: 0, send_back: None }));
    assert!(backend.can_enter(&Sent::Request { id: 1, send_back: None }));
    assert!(backend.can_enter(&Sent::Notification));
}

#[test]
fn a_notification_is_sent_and_forgotten() {
    let (mut client, mut backend) = start(4);
    let message = client.notification("n", None).unwrap();
    assert_eq!(
        go(&mut backend, Event::Front(message)),
        vec![r#"{"jsonrpc":"2.0","method":"n"}"#]
    );
    let message = client.notification("n", None).unwrap();
    match backend.on_event(Event::Front(message)) {
        Action::Send { sent, .. } => {
            assert!(matches!(backend.on_sent(sent, Err(String::new())), Action::Wait))
        }
        _ => panic!("expected a text"),
    }
}

fn responses(pairs: &[(u64, &str)]) -> Event {
    let replies = pairs
        .iter()
        .map(|(id, result)| Response { id: Id::Number(*id), result: Value::from(*result) })
        .collect();
    Event::Message(Incoming::Batch(replies))
}

#[test]
fn batch_results_come_in_call_order() {
    let (mut client, mut backend) = start(4);
    let batch = vec![("a", None), ("b", None), ("c", None)];
    let (message, mut receiver) = client.batch_request(batch).unwrap();
    go(&mut backend, Event::Front(message));
    go(&mut backend, responses(&[(2, "c"), (0, "a"), (1, "b")]));
    assert_eq!(
        result_at(&mut receiver).unwrap(),
        vec![Value::from("a"), Value::from("b"), Value::from("c")]
    );
    reject(&mut backend, responses(&[(2, "c"), (0, "a"), (1, "b")]));
}

#[test]
fn an_incomplete_batch_reply_is_unknown() {
    let (mut client, mut backend) = start(4);
    let (message, mut receiver) = client.batch_request(vec![("a", None), ("b", None)]).unwrap();
    go(&mut backend, Event::Front(message));
    reject(&mut backend, responses(&[(0, "a")]));
    reject(&mut backend, responses(&[(0, "a"), (0, "a")]));
    reject(&mut backend, responses(&[(0, "a"), (1, "b"), (2, "c")]));
    let unnumbered = vec![
        Response { id: Id::Number(0), result: Value::Null },
        Response { id: Id::Str("1".to_string()), result: Value::Null },
    ];
    reject(&mut backend, Event::Message(Incoming::Batch(unnumbered)));
    go(&mut backend, responses(&[(1, "b"), (0, "a")]));
    assert_eq!(result_at(&mut receiver).unwrap(), vec![Value::from("a"), Value::from("b")]);
}

#[test]
fn an_empty_batch_gets_an_empty_reply() {
    let (mut client, mut backend) = start(4);
    let (message, mut receiver) = client.batch_request(vec![]).unwrap();
    assert_eq!(go(&mut backend, Event::Front(message)), vec!["[]"]);
    go(&mut backend, responses(&[]));
    assert!(result_at(&mut receiver).unwrap().is_empty());
}

fn batch(ids: Vec<u64>) -> (FrontToBack, Answer<Vec<Value>>) {
    let (send_back, receiver) = oneshot::channel();
    (FrontToBack::Batch(BatchMessage { raw: "[]".to_string(), ids, send_back }), receiver)
}

#[test]
fn repeated_ids_leave_a_gap() {
    let (_client, mut backend) = start(4);
    let (message, mut receiver) = batch(vec![5, 5]);
    go(&mut backend, Event::Front(message));
    go(&mut backend, responses(&[(5, "first"), (5, "second")]));
    assert_eq!(result_at(&mut receiver).unwrap(), vec![Value::Null, Value::from("second")]);
}

#[test]
fn a_pending_batch_keeps_its_ids() {
    let (_client, mut backend) = start(4);
    let (first, _first_receiver) = batch(vec![1, 2]);
    go(&mut backend, Event::Front(first));
    let (second, mut receiver) = batch(vec![2, 1]);
    assert!(go(&mut backend, Event::Front(second)).is_empty());
    assert!(matches!(result_at(&mut receiver), Err(ClientError::InvalidRequestId)));
    let (third, _third_receiver) = batch(vec![2, 3]);
    assert_eq!(go(&mut backend, Event::Front(third)), vec!["[]"]);
}

#[test]
fn a_batch_that_cannot_be_sent_is_forgotten() {
    let (_client, mut backend) = start(4);
    let (message, mut receiver) = batch(vec![1, 2]);
    match backend.on_event(Event::Front(message)) {
        Action::Send { sent, .. } => {
            assert!(matches!(backend.on_sent(sent, Err(String::new())), Action::Wait))
        }
        _ => panic!("expected a text"),
    }
    assert!(receiver.try_recv().is_err());
    let (again, _receiver) = batch(vec![2, 1]);
    assert_eq!(go(&mut backend, Event::Front(again)), vec!["[]"]);
}

#[test]
fn a_subscription_yields_notifications_in_order() {
    let (mut client, mut backend) = start(1024);
    let (mut notifs, id) = subscribe(&mut client, &mut backend, 0, Value::from(7));
    assert!(matches!(id, SubscriptionId::Num(7)));
    for i in 0..10 {
        assert!(go(&mut backend, pushed(SubscriptionId::Num(7), Value::from(i))).is_empty());
    }
    for i in 0..10 {
        assert_eq!(notifs.try_recv().unwrap(), Value::from(i));
    }
    assert!(matches!(notifs.try_recv(), Err(TryRecvError::Empty)));
}

#[test]
fn subscriptions_do_not_mix() {
    let (mut client, mut backend) = start(16);
    let (mut hello, _) = subscribe(&mut client, &mut backend, 0, Value::from("7"));
    let (mut foo, _) = subscribe(&mut client, &mut backend, 2, Value::from(7));
    go(&mut backend, pushed(SubscriptionId::Num(7), Value::from(1337)));
    go(&mut backend, pushed(SubscriptionId::Str("7".to_string()), Value::from("hello")));
    go(&mut backend, pushed(SubscriptionId::Num(8), Value::from("lost")));
    assert_eq!(hello.try_recv().unwrap(), Value::from("hello"));
    assert_eq!(foo.try_recv().unwrap(), Value::from(1337));
    assert!(hello.try_recv().is_err());
    assert!(foo.try_recv().is_err());
}

#[test]
fn a_slow_listener_loses_the_subscription_only() {
    let (mut client, mut backend) = start(4);
    let (mut notifs, _) = subscribe(&mut client, &mut backend, 0, Value::from(7));
    // The sender has a place of its own besides the buffer.
    for i in 0..5 {
        assert!(go(&mut backend, pushed(SubscriptionId::Num(7), Value::from(i))).is_empty());
    }
    assert_eq!(
        go(&mut backend, pushed(SubscriptionId::Num(7), Value::from(5))),
        vec![r#"{"jsonrpc":"2.0","id":1,"method":"unsubscribe_hello","params":[7]}"#]
    );
    for i in 0..5 {
        assert_eq!(notifs.try_recv().unwrap(), Value::from(i));
    }
    assert!(matches!(notifs.try_recv(), Err(TryRecvError::Closed)));
    assert!(go(&mut backend, pushed(SubscriptionId::Num(7), Value::from(6))).is_empty());
    assert!(go(&mut backend, reply(1, Value::from(true))).is_empty());

    let (message, mut receiver) = client.request("say_hello", None).unwrap();
    go(&mut backend, Event::Front(message));
    go(&mut backend, reply(2, Value::from("hello")));
    assert_eq!(result_at(&mut receiver).unwrap(), Value::from("hello"));

    let (mut again, _) = subscribe(&mut client, &mut backend, 3, Value::from(7));
    go(&mut backend, pushed(SubscriptionId::Num(7), Value::from(8)));
    assert_eq!(again.try_recv().unwrap(), Value::from(8));
}

#[test]
fn a_dropped_subscription_tells_the_server_once() {
    let (mut client, mut backend) = start(4);
    let (notifs, id) = subscribe(&mut client, &mut backend, 0, Value::from("s"));
    drop(notifs);
    let unsubscribe = r#"{"jsonrpc":"2.0","id":1,"method":"unsubscribe_hello","params":["s"]}"#;
    let close = Event::Front(FrontToBack::SubscriptionClosed(id.clone()));
    assert_eq!(go(&mut backend, close), vec![unsubscribe]);
    let close = Event::Front(FrontToBack::SubscriptionClosed(id));
    assert!(go(&mut backend, close).is_empty());
    assert!(go(&mut backend, reply(1, Value::from(true))).is_empty());
    reject(&mut backend, reply(1, Value::from(true)));
    reject(&mut backend, reply(0, Value::from(true)));
}

#[test]
fn a_request_to_unsubscribe_that_cannot_be_sent_is_forgotten() {
    let (mut client, mut backend) = start(4);
    let (_notifs, id) = subscribe(&mut client, &mut backend, 0, Value::from(1));
    let close = Event::Front(FrontToBack::SubscriptionClosed(id));
    match backend.on_event(close) {
        Action::Send { sent, .. } => {
            assert!(matches!(sent, Sent::Unsubscribe(1)));
            assert!(matches!(backend.on_sent(sent, Err(String::new())), Action::Wait));
        }
        _ => panic!("expected a text"),
    }
    assert!(backend.can_enter(&Sent::Request { id: 1, send_back: None }));
}

#[test]
fn a_subscriber_who_is_gone_is_unsubscribed() {
    let (mut client, mut backend) = start(4);
    let (message, receiver) = client.subscribe("sub", None, "unsub").unwrap();
    go(&mut backend, Event::Front(message));
    drop(receiver);
    assert_eq!(
        go(&mut backend, reply(0, Value::from(9))),
        vec![r#"{"jsonrpc":"2.0","id":1,"method":"unsub","params":[9]}"#]
    );
    assert!(go(&mut backend, pushed(SubscriptionId::Num(9), Value::Null)).is_empty());
}

#[test]
fn a_subscription_needs_a_subscription_id() {
    for value in [Value::Null, Value::from(-1), Value::from(true), Value::from(vec![Value::Null])] {
        let (mut client, mut backend) = start(4);
        let (message, mut receiver) = client.subscribe("sub", None, "unsub").unwrap();
        go(&mut backend, Event::Front(message));
        assert!(go(&mut backend, reply(0, value)).is_empty());
        assert!(matches!(result_at(&mut receiver), Err(ClientError::InvalidSubscriptionId)));
    }
}

#[test]
fn a_subscription_id_in_use_is_refused() {
    let (mut client, mut backend) = start(4);
    let (mut notifs, _) = subscribe(&mut client, &mut backend, 0, Value::from(7));
    let (message, mut receiver) = client.subscribe("sub", None, "unsub").unwrap();
    go(&mut backend, Event::Front(message));
    assert!(go(&mut backend, reply(2, Value::from(7))).is_empty());
    assert!(matches!(result_at(&mut receiver), Err(ClientError::InvalidSubscriptionId)));
    go(&mut backend, pushed(SubscriptionId::Num(7), Value::from(1)));
    assert_eq!(notifs.try_recv().unwrap(), Value::from(1));
}

#[test]
fn a_failed_subscription_is_told_the_report() {
    let (mut client, mut backend) = start(4);
    let (message, mut receiver) = client.subscribe("sub", None, "unsub").unwrap();
    go(&mut backend, Event::Front(message));
    go(&mut backend, failure(0, "no"));
    assert!(matches!(result_at(&mut receiver), Err(ClientError::Request(text)) if text == "no"));
}

#[test]
fn a_subscription_that_cannot_be_sent_is_told_why() {
    let (mut client, mut backend) = start(4);
    let (message, mut receiver) = client.subscribe("sub", None, "unsub").unwrap();
    let action = match backend.on_event(Event::Front(message)) {
        Action::Send { sent, .. } => backend.on_sent(sent, Err("down".to_string())),
        _ => panic!("expected a text"),
    };
    match action {
        Action::Deliver(Reply::NotSubscribed { send_back, error }) => {
            backend.deliver(Reply::NotSubscribed { send_back, error });
        }
        _ => panic!("expected an answer"),
    }
    assert!(
        matches!(result_at(&mut receiver), Err(ClientError::Transport(text)) if text == "down")
    );
}

#[test]
fn replies_to_an_active_subscription_end_the_task() {
    let (mut client, mut backend) = start(4);
    let (_notifs, _) = subscribe(&mut client, &mut backend, 0, Value::from(7));
    reject(&mut backend, reply(0, Value::from(7)));
    reject(&mut backend, failure(0, ""));
}

fn register(client: &Client, backend: &mut Backend) -> Result<Receiver<Value>, ClientError> {
    let (message, mut receiver) = client.subscribe_to_method("m");
    assert!(go(backend, Event::Front(message)).is_empty());
    match result_at(&mut receiver) {
        Ok((notifs, method)) => {
            assert_eq!(method, "m");
            Ok(notifs)
        }
        Err(error) => Err(error),
    }
}

#[test]
fn a_method_has_one_handler_at_a_time() {
    let (client, mut backend) = start(4);
    let mut notifs = register(&client, &mut backend).unwrap();
    assert!(matches!(
        register(&client, &mut backend),
        Err(ClientError::MethodAlreadyRegistered(method)) if method == "m"
    ));
    go(&mut backend, notified("m", Value::from(1)));
    go(&mut backend, notified("n", Value::from(2)));
    assert_eq!(notifs.try_recv().unwrap(), Value::from(1));
    assert!(matches!(notifs.try_recv(), Err(TryRecvError::Empty)));

    let message = FrontToBack::UnregisterNotification("m".to_string());
    assert!(go(&mut backend, Event::Front(message)).is_empty());
    assert!(matches!(notifs.try_recv(), Err(TryRecvError::Closed)));
    assert!(register(&client, &mut backend).is_ok());
}

#[test]
fn a_slow_handler_is_dropped() {
    let (client, mut backend) = start(0);
    let mut notifs = register(&client, &mut backend).unwrap();
    go(&mut backend, notified("m", Value::from(1)));
    go(&mut backend, notified("m", Value::from(2)));
    assert_eq!(notifs.try_recv().unwrap(), Value::from(1));
    assert!(matches!(notifs.try_recv(), Err(TryRecvError::Closed)));
    assert!(register(&client, &mut backend).is_ok());
}

#[test]
fn what_becomes_of_a_value() {
    let mut manager = RequestManager::new();
    let method = "m".to_string();
    let (sink, mut notifs) = mpsc::channel(1);
    assert!(manager.insert_notification_handler("m", sink).is_ok());
    assert_eq!(manager.push_to_handler(&method, Value::from(0)), Uptake::Taken);
    assert_eq!(manager.push_to_handler(&method, Value::from(1)), Uptake::Taken);
    assert_eq!(manager.push_to_handler(&method, Value::from(2)), Uptake::Full);
    assert_eq!(notifs.try_recv().unwrap(), Value::from(0));
    assert_eq!(manager.push_to_handler(&method, Value::from(3)), Uptake::Taken);
    assert_eq!(notifs.try_recv().unwrap(), Value::from(1));
    assert_eq!(notifs.try_recv().unwrap(), Value::from(3));
    drop(notifs);
    assert_eq!(manager.push_to_handler(&method, Value::from(4)), Uptake::Gone);
}

#[test]
fn a_handler_that_is_gone_is_dropped() {
    let (client, mut backend) = start(4);
    drop(register(&client, &mut backend).unwrap());
    assert!(register(&client, &mut backend).is_err());
    go(&mut backend, notified("m", Value::from(1)));
    assert!(register(&client, &mut backend).is_ok());
}

#[test]
fn how_the_task_ends() {
    let (_client, mut backend) = start(4);
    let (_, ended) = run(&mut backend, Event::FrontClosed);
    assert!(matches!(ended, Some(None)));
    let (_, ended) = run(&mut backend, Event::ReceiveFailed("reset".to_string()));
    assert!(matches!(ended, Some(Some(ClientError::Transport(text))) if text == "reset"));
    let (_, ended) = run(&mut backend, Event::ReceiverClosed);
    assert!(matches!(
        ended,
        Some(Some(ClientError::Custom(text))) if text == "WebSocket receiver dropped"
    ));
    let (_, ended) = run(&mut backend, Event::Message(Incoming::Unparsable));
    assert!(matches!(
        ended,
        Some(Some(ClientError::Custom(text))) if text == "Unparsable response"
    ));
}

fn nothing() -> Decoded {
    Decoded { single: None, subscription: None, notification: None, batch: None, error: None }
}

#[test]
fn a_message_counts_as_its_first_shape() {
    let response = || Response { id: Id::Number(1), result: Value::Null };
    let subscription =
        || SubscriptionResponse { subscription: SubscriptionId::Num(1), result: Value::Null };
    let notification = || Notification { method: "m".to_string(), params: Value::Null };
    let error = || RpcError { id: Id::Null, message: String::new() };

    assert!(matches!(nothing().classify(), Incoming::Unparsable));
    let decoded = Decoded { error: Some(error()), ..nothing() };
    assert!(matches!(decoded.classify(), Incoming::Failure(_)));
    let decoded = Decoded { batch: Some(vec![response()]), error: Some(error()), ..nothing() };
    assert!(matches!(decoded.classify(), Incoming::Batch(_)));
    let decoded =
        Decoded { notification: Some(notification()), batch: Some(vec![]), ..nothing() };
    assert!(matches!(decoded.classify(), Incoming::Notification(_)));
    let decoded = Decoded {
        subscription: Some(subscription()),
        notification: Some(notification()),
        ..nothing()
    };
    assert!(matches!(decoded.classify(), Incoming::Subscription(_)));
    let decoded = Decoded {
        single: Some(response()),
        subscription: Some(subscription()),
        notification: Some(notification()),
        batch: Some(vec![]),
        error: Some(error()),
    };
    assert!(matches!(decoded.classify(), Incoming::Single(_)));
}

#[test]
fn everything_at_once() {
    let (mut client, mut backend) = start(16);
    let (mut hello, hello_id) = subscribe(&mut client, &mut backend, 0, Value::from("hello"));
    let (mut foo, _) = subscribe(&mut client, &mut backend, 2, Value::from(9));
    let mut handler = register(&client, &mut backend).unwrap();
    let (message, mut call) = client.request("f", None).unwrap();
    go(&mut backend, Event::Front(message));
    let (message, mut batch) = client.batch_request(vec![("a", None), ("b", None)]).unwrap();
    go(&mut backend, Event::Front(message));

    for i in 0..10 {
        let text = SubscriptionId::Str("hello".to_string());
        go(&mut backend, pushed(text, Value::from("hello from subscription")));
        go(&mut backend, notified("m", Value::from(i)));
        go(&mut backend, pushed(SubscriptionId::Num(9), Value::from(1337 + i)));
    }
    assert!(register(&client, &mut backend).is_err());
    go(&mut backend, Event::Front(FrontToBack::SubscriptionClosed(hello_id)));
    go(&mut backend, responses(&[(6, "b"), (5, "a")]));
    go(&mut backend, pushed(SubscriptionId::Num(9), Value::from("last")));
    go(&mut backend, reply(4, Value::from("done")));

    assert_eq!(result_at(&mut call).unwrap(), Value::from("done"));
    assert_eq!(result_at(&mut batch).unwrap(), vec![Value::from("a"), Value::from("b")]);
    for i in 0..10 {
        assert_eq!(hello.try_recv().unwrap(), Value::from("hello from subscription"));
        assert_eq!(foo.try_recv().unwrap(), Value::from(1337 + i));
        assert_eq!(handler.try_recv().unwrap(), Value::from(i));
    }
    assert!(matches!(hello.try_recv(), Err(TryRecvError::Closed)));
    assert_eq!(foo.try_recv().unwrap(), Value::from("last"));
    reject(&mut backend, reply(4, Value::from("done")));
}

#[test]
fn advancing_stops_where_the_transport_is_needed() {
    let (mut client, mut backend) = start(4);
    assert!(matches!(backend.advance(Action::Wait), Action::Wait));
    assert!(matches!(backend.advance(Action::Terminate(None)), Action::Terminate(None)));
    let (message, receiver) = client.subscribe("sub", None, "unsub").unwrap();
    go(&mut backend, Event::Front(message));
    drop(receiver);
    let action = backend.on_event(reply(0, Value::from(1)));
    assert!(matches!(action, Action::OpenSubscription(_)));
    assert!(matches!(
        backend.advance(action),
        Action::Send { sent: Sent::Unsubscribe(1), .. }
    ));
}
