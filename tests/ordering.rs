use su_flows::message::Message;
use su_flows::sorted::{RangeError, SortedMessages};

fn msg(id: &str, key: &str) -> Message {
    Message {
        id: id.to_string(),
        process_id: "proc-1".to_string(),
        sequence_key: key.to_string(),
        payload: vec![1, 2, 3],
        signature: format!("sig-{}", id),
        bundle_reference: format!("ref-{}", id),
    }
}

fn ids(s: &SortedMessages) -> Vec<String> {
    s.messages.iter().map(|m| m.id.clone()).collect()
}

fn sample() -> Vec<Message> {
    vec![
        msg("c", "000000000002,1700000000002"),
        msg("a", "000000000001,1700000000000"),
        msg("e", "000000000003,1700000000005"),
        msg("b", "000000000001,1700000000001"),
        msg("d", "000000000002,1700000000002"),
    ]
}

#[test]
fn orders_by_sequence_key_then_id() {
    let s = SortedMessages::from_messages(sample(), None, None).unwrap();
    assert_eq!(ids(&s), vec!["a", "b", "c", "d", "e"]);
}

#[test]
fn reordered_input_gives_same_order() {
    let first = SortedMessages::from_messages(sample(), None, None).unwrap();
    let mut reversed = sample();
    reversed.reverse();
    let second = SortedMessages::from_messages(reversed, None, None).unwrap();
    assert_eq!(first.messages, second.messages);
    let again = SortedMessages::from_messages(sample(), None, None).unwrap();
    assert_eq!(first.messages, again.messages);
}

#[test]
fn range_is_contiguous_run_inclusive() {
    let full = SortedMessages::from_messages(sample(), None, None).unwrap();
    let part = SortedMessages::from_messages(
        sample(),
        Some("000000000001,1700000000001".to_string()),
        Some("000000000002,1700000000002".to_string()),
    )
    .unwrap();
    assert_eq!(part.messages, full.messages[1..4].to_vec());
    assert_eq!(ids(&part), vec!["b", "c", "d"]);
}

#[test]
fn absent_cursor_clamps_to_neighbours() {
    let part = SortedMessages::from_messages(
        sample(),
        Some("000000000001,5".to_string()),
        Some("000000000002,9".to_string()),
    )
    .unwrap();
    assert_eq!(ids(&part), vec!["c", "d"]);
    let only_from =
        SortedMessages::from_messages(sample(), Some("000000000002".to_string()), None).unwrap();
    assert_eq!(ids(&only_from), vec!["c", "d", "e"]);
    let only_to =
        SortedMessages::from_messages(sample(), None, Some("000000000001,1700000000000".to_string()))
            .unwrap();
    assert_eq!(ids(&only_to), vec!["a"]);
}

#[test]
fn inverted_range_is_refused() {
    let r = SortedMessages::from_messages(
        sample(),
        Some("000000000003".to_string()),
        Some("000000000001".to_string()),
    );
    assert_eq!(r.unwrap_err(), RangeError);
}

#[test]
fn equal_bounds_select_one_key() {
    let k = "000000000002,1700000000002".to_string();
    let r = SortedMessages::from_messages(sample(), Some(k.clone()), Some(k)).unwrap();
    assert_eq!(ids(&r), vec!["c", "d"]);
}

#[test]
fn empty_input_gives_empty_order() {
    let r = SortedMessages::from_messages(Vec::new(), None, None).unwrap();
    assert!(r.messages.is_empty());
}
