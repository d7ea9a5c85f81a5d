use twipo_synchro::feed::{Event, TweepList, TAG_RECORD};
use twipo_synchro::relay::{
    encode_reply, parse_reply_frame, validate_reply, ClientMessage, ReplyError, ReplySelection,
};

fn list_with_record(id: u32, replies: u16) -> TweepList {
    let mut b = Vec::new();
    b.extend_from_slice(&TAG_RECORD.to_le_bytes());
    b.extend_from_slice(&id.to_le_bytes());
    b.extend_from_slice(&[0; 6]);
    b.extend_from_slice(&replies.to_le_bytes());
    b.extend_from_slice(&[0xFF, 0xFF, 0xFF]);
    for _ in 0..replies {
        b.push(0xFF);
    }
    let (m, _) = twipo_synchro::feed::read_message(&vec!['z'], &b, 0).unwrap();
    let mut list = TweepList::new();
    let ev = list.apply(m);
    assert!(matches!(ev, Some(Event::NewTweep(_))));
    list
}

fn message(kind: &str, tweep_id: u32, reply_id: u32) -> ClientMessage {
    ClientMessage { kind: kind.to_string(), tweep_id, reply_id }
}

#[test]
fn reply_at_reply_count_is_refused() {
    let list = list_with_record(5, 3);
    assert_eq!(validate_reply(&list, &message("reply", 5, 3)), Err(ReplyError::ReplyOutOfRange));
    assert_eq!(list.len(), 1);
}

#[test]
fn last_reply_is_accepted() {
    let list = list_with_record(5, 3);
    assert_eq!(
        validate_reply(&list, &message("reply", 5, 2)),
        Ok(ReplySelection { tweep_id: 5, reply_id: 2 })
    );
}

#[test]
fn other_discriminant_is_refused() {
    let list = list_with_record(5, 3);
    assert_eq!(validate_reply(&list, &message("replies", 5, 0)), Err(ReplyError::NotAReply));
    assert_eq!(validate_reply(&list, &message("Reply", 5, 0)), Err(ReplyError::NotAReply));
}

#[test]
fn unknown_record_is_refused() {
    let list = list_with_record(5, 3);
    assert_eq!(validate_reply(&list, &message("reply", 6, 0)), Err(ReplyError::UnknownTweep));
}

#[test]
fn reply_frame_bytes() {
    let frame = encode_reply(ReplySelection { tweep_id: 0x01020304, reply_id: 2 });
    assert_eq!(
        frame,
        vec![0x52, 0x50, 0x4c, 0x59, 0x04, 0x03, 0x02, 0x01, 0x02, 0x00, 0x00, 0x00]
    );
}

#[test]
fn reply_frame_round_trip() {
    for sel in [
        ReplySelection { tweep_id: 0, reply_id: 0 },
        ReplySelection { tweep_id: u32::MAX, reply_id: 7 },
        ReplySelection { tweep_id: 123456789, reply_id: u32::MAX },
    ] {
        assert_eq!(parse_reply_frame(&encode_reply(sel)), Some(sel));
    }
}

#[test]
fn malformed_reply_frames_are_not_read() {
    let frame = encode_reply(ReplySelection { tweep_id: 1, reply_id: 1 });
    assert_eq!(parse_reply_frame(&frame[..11]), None);
    let mut wrong = frame.clone();
    wrong[0] = 0;
    assert_eq!(parse_reply_frame(&wrong), None);
}
