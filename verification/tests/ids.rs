use jsonrpc_client::error::ClientError;
use jsonrpc_client::ids::RequestIdManager;

#[test]
fn ids_count_up() {
    let mut ids = RequestIdManager::new(3);
    assert_eq!(ids.next_request_id().unwrap(), 0);
    assert_eq!(ids.next_request_id().unwrap(), 1);
    assert_eq!(ids.pending(), 2);
}

#[test]
fn several_ids_take_one_slot() {
    let mut ids = RequestIdManager::new(2);
    assert_eq!(ids.next_request_ids(3).unwrap(), vec![0, 1, 2]);
    assert_eq!(ids.pending(), 1);
    assert_eq!(ids.next_request_ids(2).unwrap(), vec![3, 4]);
    assert!(matches!(ids.next_request_ids(1), Err(ClientError::MaxSlotsExceeded)));
}

#[test]
fn no_ids_take_a_slot_too() {
    let mut ids = RequestIdManager::new(1);
    assert!(ids.next_request_ids(0).unwrap().is_empty());
    assert_eq!(ids.pending(), 1);
    assert!(matches!(ids.next_request_id(), Err(ClientError::MaxSlotsExceeded)));
}

#[test]
fn a_full_manager_refuses_until_a_slot_is_given_back() {
    let mut ids = RequestIdManager::new(1);
    assert_eq!(ids.next_request_id().unwrap(), 0);
    assert!(matches!(ids.next_request_id(), Err(ClientError::MaxSlotsExceeded)));
    assert_eq!(ids.pending(), 1);
    ids.release();
    assert_eq!(ids.pending(), 0);
    assert_eq!(ids.next_request_id().unwrap(), 1);
}

#[test]
fn without_slots_nothing_is_handed_out() {
    let mut ids = RequestIdManager::new(0);
    assert!(matches!(ids.next_request_id(), Err(ClientError::MaxSlotsExceeded)));
    assert!(matches!(ids.next_request_ids(2), Err(ClientError::MaxSlotsExceeded)));
}
