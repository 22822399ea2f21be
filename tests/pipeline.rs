use su_flows::flows::{
    read_message, read_messages, read_process, record_message, record_process, Deps, FlowError,
    LocalFailure,
};
use su_flows::message::{Bundle, InputError};
use su_flows::store::{StoreClient, StoreError};

fn deps() -> Deps {
    Deps { data_store: StoreClient::new(), logger: Vec::new() }
}

fn bundle(id: &str, target: Option<&str>, key: &str) -> Bundle {
    Bundle {
        id: id.to_string(),
        owner: "owner".to_string(),
        target: target.map(|t| t.to_string()),
        sequence_key: key.to_string(),
        data: b"payload".to_vec(),
        signature: format!("sig-{}", id),
        reference: format!("ref-{}", id),
    }
}

#[test]
fn recorded_message_reads_back() {
    let mut d = deps();
    let receipt = "{\"id\":\"tx-1\"}".to_string();
    let b = bundle("m1", Some("p1"), "000000000001,1");
    assert_eq!(record_message(&mut d, &b, receipt.clone()).unwrap(), receipt);
    let m = read_message(&d, &"m1".to_string()).unwrap();
    assert_eq!(m.id, "m1");
    assert_eq!(m.process_id, "p1");
    assert_eq!(m.payload, b"payload".to_vec());
    assert_eq!(d.logger, vec!["saved message - m1".to_string()]);
}

#[test]
fn duplicate_write_is_partial_failure_with_receipt() {
    let mut d = deps();
    let b = bundle("m1", Some("p1"), "k");
    record_message(&mut d, &b, "r1".to_string()).unwrap();
    match record_message(&mut d, &b, "r2".to_string()) {
        Err(FlowError::PartialFailure { receipt, cause }) => {
            assert_eq!(receipt, "r2");
            assert_eq!(cause, LocalFailure::Store(StoreError::Duplicate));
        }
        other => panic!("unexpected {:?}", other),
    }
    assert_eq!(d.logger.len(), 1);
}

#[test]
fn message_bundle_without_target_is_partial_failure() {
    let mut d = deps();
    match record_message(&mut d, &bundle("m1", None, "k"), "r".to_string()) {
        Err(FlowError::PartialFailure { receipt, cause }) => {
            assert_eq!(receipt, "r");
            assert_eq!(cause, LocalFailure::Input(InputError::MissingTarget));
        }
        other => panic!("unexpected {:?}", other),
    }
    assert!(matches!(read_message(&d, &"m1".to_string()), Err(FlowError::Store(StoreError::NotFound))));
}

#[test]
fn recorded_process_reads_back() {
    let mut d = deps();
    assert_eq!(record_process(&mut d, &bundle("p1", None, ""), "r".to_string()).unwrap(), "r");
    let p = read_process(&d, &"p1".to_string()).unwrap();
    assert_eq!(p.owner_identity, "owner");
    assert_eq!(p.creation_bundle_reference, "ref-p1");
    assert_eq!(d.logger, vec!["saved process - p1".to_string()]);
    match record_process(&mut d, &bundle("p2", Some("p1"), ""), "r".to_string()) {
        Err(FlowError::PartialFailure { cause, .. }) => {
            assert_eq!(cause, LocalFailure::Input(InputError::UnexpectedTarget))
        }
        other => panic!("unexpected {:?}", other),
    }
}

#[test]
fn read_messages_orders_and_slices() {
    let mut d = deps();
    record_message(&mut d, &bundle("m3", Some("p1"), "000000000003"), "r".to_string()).unwrap();
    record_message(&mut d, &bundle("m1", Some("p1"), "000000000001"), "r".to_string()).unwrap();
    record_message(&mut d, &bundle("x", Some("p2"), "000000000000"), "r".to_string()).unwrap();
    record_message(&mut d, &bundle("m2", Some("p1"), "000000000002"), "r".to_string()).unwrap();
    let all = read_messages(&d, &"p1".to_string(), None, None).unwrap();
    let ids: Vec<&str> = all.messages.iter().map(|m| m.id.as_str()).collect();
    assert_eq!(ids, vec!["m1", "m2", "m3"]);
    let some = read_messages(
        &d,
        &"p1".to_string(),
        Some("000000000002".to_string()),
        Some("000000000003".to_string()),
    )
    .unwrap();
    let ids: Vec<&str> = some.messages.iter().map(|m| m.id.as_str()).collect();
    assert_eq!(ids, vec!["m2", "m3"]);
    assert!(matches!(
        read_messages(&d, &"p1".to_string(), Some("2".to_string()), Some("1".to_string())),
        Err(FlowError::Range(_))
    ));
}
