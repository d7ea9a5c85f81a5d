use twipo_synchro::decoder::FeedError;
use twipo_synchro::feed::{read_message, Event, Message, TweepList, TAG_CLEAR, TAG_RECORD, TAG_SET_REPLY_POSSIBLE};

fn table() -> Vec<char> {
    vec!['a', 'b', 'c']
}

fn record_bytes(id: u32, replies: u16) -> Vec<u8> {
    let mut b = Vec::new();
    b.extend_from_slice(&TAG_RECORD.to_le_bytes());
    b.extend_from_slice(&id.to_le_bytes());
    b.extend_from_slice(&3u16.to_le_bytes());
    b.extend_from_slice(&7u16.to_le_bytes());
    b.extend_from_slice(&1u16.to_le_bytes());
    b.extend_from_slice(&replies.to_le_bytes());
    b.extend_from_slice(&[0x80, 0x00, 0xFF]);
    b.extend_from_slice(&[0x80, 0x01, 0xFF]);
    b.extend_from_slice(&[0x80, 0x02, 0x00, 0xFF]);
    for _ in 0..replies {
        b.extend_from_slice(&[0x80, 0x01, 0x80, 0x02, 0xFF]);
    }
    b
}

fn set_reply_bytes(id: u32, possible: u16) -> Vec<u8> {
    let mut b = Vec::new();
    b.extend_from_slice(&TAG_SET_REPLY_POSSIBLE.to_le_bytes());
    b.extend_from_slice(&id.to_le_bytes());
    b.extend_from_slice(&possible.to_le_bytes());
    b
}

fn apply_bytes(list: &mut TweepList, bytes: &[u8]) -> Option<Event> {
    let (m, end) = read_message(&table(), bytes, 0).unwrap();
    assert_eq!(end, bytes.len());
    list.apply(m)
}

#[test]
fn record_message_is_read_field_by_field() {
    let bytes = record_bytes(42, 2);
    let (m, end) = read_message(&table(), &bytes, 0).unwrap();
    assert_eq!(end, bytes.len());
    match m {
        Message::NewTweep(t) => {
            assert_eq!(t.id, 42);
            assert_eq!(t.tab, 3);
            assert_eq!(t.pfp_id, 7);
            assert!(t.different_day);
            assert_eq!(t.author_username.content, vec!['a']);
            assert_eq!(t.author_realname.content, vec!['b']);
            assert_eq!(t.content.content, vec!['c']);
            assert_eq!(t.content.markers.len(), 1);
            assert_eq!(t.replies.len(), 2);
            assert_eq!(t.replies[1].content, vec!['b', 'c']);
            assert!(!t.reply_possible);
        }
        other => panic!("unexpected message {:?}", other),
    }
}

#[test]
fn unknown_tag_is_refused() {
    let r = read_message(&table(), &[1, 2, 3, 4, 5, 6], 0);
    assert_eq!(r.err(), Some(FeedError::UnknownTag));
}

#[test]
fn short_messages_are_truncated() {
    let bytes = record_bytes(1, 1);
    let r = read_message(&table(), &bytes[..bytes.len() - 1], 0);
    assert_eq!(r.err(), Some(FeedError::Truncated));
    let s = set_reply_bytes(1, 1);
    assert_eq!(read_message(&table(), &s[..9], 0).err(), Some(FeedError::Truncated));
    assert_eq!(read_message(&table(), &[0x41, 0x45], 0).err(), Some(FeedError::Truncated));
}

#[test]
fn clear_after_records_empties_the_list_with_one_event() {
    let mut list = TweepList::new();
    let mut clears = 0;
    for id in 0..5u32 {
        match apply_bytes(&mut list, &record_bytes(id, 1)) {
            Some(Event::NewTweep(t)) => assert_eq!(t.id, id),
            other => panic!("unexpected event {:?}", other),
        }
    }
    assert_eq!(list.len(), 5);
    match apply_bytes(&mut list, &TAG_CLEAR.to_le_bytes()) {
        Some(Event::Clear) => clears += 1,
        other => panic!("unexpected event {:?}", other),
    }
    assert_eq!(list.len(), 0);
    assert_eq!(clears, 1);
}

#[test]
fn reply_flag_for_absent_id_is_ignored() {
    let mut list = TweepList::new();
    apply_bytes(&mut list, &record_bytes(1, 1));
    let ev = apply_bytes(&mut list, &set_reply_bytes(99, 1));
    assert!(ev.is_none());
    assert_eq!(list.len(), 1);
    assert!(!list.tweeps[0].reply_possible);
}

#[test]
fn reply_flag_for_known_id_is_set_and_told() {
    let mut list = TweepList::new();
    apply_bytes(&mut list, &record_bytes(1, 1));
    apply_bytes(&mut list, &record_bytes(2, 1));
    match apply_bytes(&mut list, &set_reply_bytes(2, 1)) {
        Some(Event::SetReplyPossible { id, possible }) => {
            assert_eq!(id, 2);
            assert!(possible);
        }
        other => panic!("unexpected event {:?}", other),
    }
    assert!(!list.tweeps[0].reply_possible);
    assert!(list.tweeps[1].reply_possible);
    assert_eq!(list.position_of(2), Some(1));
    assert_eq!(list.position_of(3), None);
}

#[test]
fn replay_lists_every_record_in_order() {
    let mut list = TweepList::new();
    for id in [5u32, 3, 9] {
        apply_bytes(&mut list, &record_bytes(id, 0));
    }
    let ids: Vec<u32> = list
        .replay()
        .iter()
        .map(|e| match e {
            Event::NewTweep(t) => t.id,
            other => panic!("unexpected event {:?}", other),
        })
        .collect();
    assert_eq!(ids, vec![5, 3, 9]);
}
