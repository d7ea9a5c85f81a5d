use twipo_synchro::bridge::ingest_message;
use twipo_synchro::feed::{Event, TweepList, TAG_CLEAR, TAG_RECORD};
use twipo_synchro::hub::Hub;

fn table() -> Vec<char> {
    vec!['x']
}

fn record_bytes(id: u32) -> Vec<u8> {
    let mut b = Vec::new();
    b.extend_from_slice(&TAG_RECORD.to_le_bytes());
    b.extend_from_slice(&id.to_le_bytes());
    b.extend_from_slice(&[0; 8]);
    b.extend_from_slice(&[0xFF, 0xFF, 0x80, 0x00, 0xFF]);
    b
}

fn describe(events: &[Event]) -> Vec<String> {
    events
        .iter()
        .map(|e| match e {
            Event::Clear => "clear".to_string(),
            Event::NewTweep(t) => format!("tweep {}", t.id),
            Event::SetReplyPossible { id, possible } => format!("reply {} {}", id, possible),
        })
        .collect()
}

fn feed(list: &mut TweepList, hub: &mut Hub, bytes: &[u8]) {
    let end = ingest_message(list, hub, &table(), bytes, 0).unwrap();
    assert_eq!(end, bytes.len());
}

#[test]
fn late_joiner_gets_replay_then_new_events() {
    let mut list = TweepList::new();
    let mut hub = Hub::new();
    feed(&mut list, &mut hub, &record_bytes(1));
    hub.join(10, &list);
    feed(&mut list, &mut hub, &record_bytes(2));
    hub.join(20, &list);
    feed(&mut list, &mut hub, &record_bytes(3));
    feed(&mut list, &mut hub, &TAG_CLEAR.to_le_bytes());
    feed(&mut list, &mut hub, &record_bytes(4));

    let a = hub.position_of(10).unwrap();
    let b = hub.position_of(20).unwrap();
    let first = hub.take_outbox(a);
    let second = hub.take_outbox(b);
    assert_eq!(describe(&first), vec!["tweep 1", "tweep 2", "tweep 3", "clear", "tweep 4"]);
    assert_eq!(describe(&second), vec!["tweep 1", "tweep 2", "tweep 3", "clear", "tweep 4"]);
    assert!(hub.take_outbox(a).is_empty());
}

#[test]
fn joiner_after_clear_gets_only_later_records() {
    let mut list = TweepList::new();
    let mut hub = Hub::new();
    hub.join(1, &list);
    feed(&mut list, &mut hub, &record_bytes(7));
    feed(&mut list, &mut hub, &TAG_CLEAR.to_le_bytes());
    feed(&mut list, &mut hub, &record_bytes(8));
    hub.join(2, &list);
    feed(&mut list, &mut hub, &record_bytes(9));
    let first = hub.take_outbox(0);
    let second = hub.take_outbox(1);
    assert_eq!(describe(&first), vec!["tweep 7", "clear", "tweep 8", "tweep 9"]);
    assert_eq!(describe(&second), vec!["tweep 8", "tweep 9"]);
}

#[test]
fn prune_removes_only_failed_connections() {
    let list = TweepList::new();
    let mut hub = Hub::new();
    for id in [1u64, 2, 3, 4] {
        hub.join(id, &list);
    }
    hub.prune(&vec![2, 4, 99]);
    let ids: Vec<u64> = hub.connections.iter().map(|c| c.id).collect();
    assert_eq!(ids, vec![1, 3]);
    assert_eq!(hub.position_of(2), None);
}

#[test]
fn failed_feed_changes_nothing() {
    let mut list = TweepList::new();
    let mut hub = Hub::new();
    hub.join(1, &list);
    let bytes = record_bytes(5);
    let r = ingest_message(&mut list, &mut hub, &table(), &bytes[..bytes.len() - 1], 0);
    assert!(r.is_err());
    assert_eq!(list.len(), 0);
    assert!(hub.take_outbox(0).is_empty());
}
