use su_flows::message::{Bundle, InputError, Message, Process};
use su_flows::store::{StoreClient, StoreError};

fn msg(id: &str, pid: &str, key: &str) -> Message {
    Message {
        id: id.to_string(),
        process_id: pid.to_string(),
        sequence_key: key.to_string(),
        payload: id.as_bytes().to_vec(),
        signature: format!("sig-{}", id),
        bundle_reference: format!("ref-{}", id),
    }
}

#[test]
fn saved_message_is_found() {
    let mut store = StoreClient::new();
    let m = msg("m1", "p1", "k1");
    assert_eq!(store.save_message(m.clone()), Ok(()));
    assert_eq!(store.get_message(&"m1".to_string()), Ok(m));
}

#[test]
fn duplicate_message_keeps_prior_value() {
    let mut store = StoreClient::new();
    let first = msg("m1", "p1", "k1");
    store.save_message(first.clone()).unwrap();
    let mut second = msg("m1", "p1", "k9");
    second.payload = vec![9, 9];
    assert_eq!(store.save_message(second), Err(StoreError::Duplicate));
    assert_eq!(store.get_message(&"m1".to_string()), Ok(first));
}

#[test]
fn missing_message_is_not_found() {
    let store = StoreClient::new();
    assert_eq!(store.get_message(&"nope".to_string()), Err(StoreError::NotFound));
    assert_eq!(store.get_process(&"nope".to_string()), Err(StoreError::NotFound));
}

#[test]
fn process_save_and_duplicate() {
    let mut store = StoreClient::new();
    let p = Process {
        id: "p1".to_string(),
        owner_identity: "owner".to_string(),
        creation_bundle_reference: "ref".to_string(),
        initial_payload: vec![7],
    };
    assert_eq!(store.save_process(p.clone()), Ok(()));
    let mut other = p.clone();
    other.owner_identity = "someone else".to_string();
    assert_eq!(store.save_process(other), Err(StoreError::Duplicate));
    assert_eq!(store.get_process(&"p1".to_string()), Ok(p));
}

#[test]
fn messages_of_one_process_in_saved_order() {
    let mut store = StoreClient::new();
    store.save_message(msg("m1", "p1", "k2")).unwrap();
    store.save_message(msg("m2", "p2", "k1")).unwrap();
    store.save_message(msg("m3", "p1", "k1")).unwrap();
    let got: Vec<String> = store
        .get_messages(&"p1".to_string())
        .into_iter()
        .map(|m| m.id)
        .collect();
    assert_eq!(got, vec!["m1", "m3"]);
    assert!(store.get_messages(&"p3".to_string()).is_empty());
}

fn bundle(target: Option<&str>) -> Bundle {
    Bundle {
        id: "b1".to_string(),
        owner: "owner-1".to_string(),
        target: target.map(|t| t.to_string()),
        sequence_key: "000000000005,1".to_string(),
        data: vec![4, 5, 6],
        signature: "sig".to_string(),
        reference: "bundle-ref".to_string(),
    }
}

#[test]
fn bundle_extraction_round_trips_through_store() {
    let b = bundle(Some("p1"));
    let m = Message::from_bundle(&b).unwrap();
    assert_eq!(m.id, "b1");
    assert_eq!(m.process_id, "p1");
    assert_eq!(m.sequence_key, "000000000005,1");
    assert_eq!(m.payload, vec![4, 5, 6]);
    assert_eq!(m.signature, "sig");
    assert_eq!(m.bundle_reference, "bundle-ref");
    let mut store = StoreClient::new();
    store.save_message(m.clone()).unwrap();
    assert_eq!(store.get_message(&"b1".to_string()), Ok(m));

    let pb = bundle(None);
    let p = Process::from_bundle(&pb).unwrap();
    assert_eq!(p.owner_identity, "owner-1");
    assert_eq!(p.initial_payload, vec![4, 5, 6]);
    store.save_process(p.clone()).unwrap();
    assert_eq!(store.get_process(&"b1".to_string()), Ok(p));
}

#[test]
fn bundle_of_wrong_kind_is_refused() {
    assert_eq!(Message::from_bundle(&bundle(None)), Err(InputError::MissingTarget));
    assert_eq!(Process::from_bundle(&bundle(Some("p1"))), Err(InputError::UnexpectedTarget));
}
