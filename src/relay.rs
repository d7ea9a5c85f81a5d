//! Replies chosen in a browser: validation against the record list and the
//! frame written back to the source pipe.
use vstd::prelude::*;

use crate::feed::{has_id, index_of_id, u32_at, TweepList, TweepView};

verus! {

/// Tag of a reply frame sent to the source pipe.
pub const TAG_REPLY: u32 = 0x594c5052;

/// Length in bytes of a reply frame: tag, record id, reply index.
pub const REPLY_FRAME_LEN: usize = 12;

/// A message received from a browser, with its discriminant.
pub struct ClientMessage {
    pub kind: String,
    pub tweep_id: u32,
    pub reply_id: u32,
}

/// A validated choice of reply.
#[derive(Clone, Copy, Debug, PartialEq, Eq, Structural)]
pub struct ReplySelection {
    pub tweep_id: u32,
    pub reply_id: u32,
}

/// Why a browser's message is refused; the connection then closes.
#[derive(Clone, Copy, Debug, PartialEq, Eq, Structural)]
pub enum ReplyError {
    /// The discriminant is not "reply".
    NotAReply,
    /// No record has the id.
    UnknownTweep,
    /// The record has no reply at the index.
    ReplyOutOfRange,
}

pub open spec fn reply_kind() -> Seq<char> {
    seq!['r', 'e', 'p', 'l', 'y']
}

/// What a browser's message amounts to against the record list.
pub open spec fn reply_spec(list: Seq<TweepView>, kind: Seq<char>, tweep_id: u32, reply_id: u32) -> Result<ReplySelection, ReplyError> {
    if kind != reply_kind() {
        Err(ReplyError::NotAReply)
    } else if !has_id(list, tweep_id) {
        Err(ReplyError::UnknownTweep)
    } else if reply_id >= list[index_of_id(list, tweep_id)].replies.len() {
        Err(ReplyError::ReplyOutOfRange)
    } else {
        Ok(ReplySelection { tweep_id, reply_id })
    }
}

/// Checks a browser's message against the record list.
pub fn validate_reply(list: &TweepList, msg: &ClientMessage) -> (r: Result<ReplySelection, ReplyError>)
    ensures
        r == reply_spec(list@, msg.kind@, msg.tweep_id, msg.reply_id),
{
    let expected = "reply".to_owned();
    proof {
        reveal_strlit("reply");
        assert(expected@ =~= reply_kind());
    }
    if msg.kind != expected {
        return Err(ReplyError::NotAReply);
    }
    proof {
        crate::feed::lemma_index_of_id(list@, msg.tweep_id);
    }
    match list.position_of(msg.tweep_id) {
        None => Err(ReplyError::UnknownTweep),
        Some(i) => {
            proof {
                crate::feed::lemma_first_with_id_unique(list@, msg.tweep_id, i as int, index_of_id(list@, msg.tweep_id));
            }
            if msg.reply_id as usize >= list.tweeps[i].replies.len() {
                Err(ReplyError::ReplyOutOfRange)
            } else {
                Ok(ReplySelection { tweep_id: msg.tweep_id, reply_id: msg.reply_id })
            }
        },
    }
}

/// A reply at the index equal to the record's number of replies, one past
/// the last, is refused.
pub proof fn lemma_reply_one_past_last_refused(list: Seq<TweepView>, tweep_id: u32)
    requires
        has_id(list, tweep_id),
        list[index_of_id(list, tweep_id)].replies.len() <= u32::MAX,
    ensures
        reply_spec(list, reply_kind(), tweep_id, list[index_of_id(list, tweep_id)].replies.len() as u32)
            == Err::<ReplySelection, ReplyError>(ReplyError::ReplyOutOfRange),
{
}

/// The four little-endian bytes of `v`.
pub open spec fn u32_bytes(v: u32) -> Seq<u8> {
    seq![(v % 256) as u8, ((v / 256) % 256) as u8, ((v / 65536) % 256) as u8, ((v / 16777216) % 256) as u8]
}

/// The frame that carries a reply to the source pipe.
pub open spec fn reply_frame_spec(sel: ReplySelection) -> Seq<u8> {
    u32_bytes(TAG_REPLY) + u32_bytes(sel.tweep_id) + u32_bytes(sel.reply_id)
}

/// The reply that a frame carries, if it is one.
pub open spec fn parse_reply_frame_spec(bytes: Seq<u8>) -> Option<ReplySelection> {
    if bytes.len() != REPLY_FRAME_LEN || u32_at(bytes, 0) != TAG_REPLY {
        None
    } else {
        Some(ReplySelection { tweep_id: u32_at(bytes, 4) as u32, reply_id: u32_at(bytes, 8) as u32 })
    }
}

fn push_u32(out: &mut Vec<u8>, v: u32)
    ensures
        final(out)@ == old(out)@ + u32_bytes(v),
{
    out.push((v % 256) as u8);
    out.push(((v / 256) % 256) as u8);
    out.push(((v / 65536) % 256) as u8);
    out.push(((v / 16777216) % 256) as u8);
    assert(final(out)@ =~= old(out)@ + u32_bytes(v));
}

/// The frame that carries a reply to the source pipe: tag, record id and
/// reply index, four little-endian bytes each.
pub fn encode_reply(sel: ReplySelection) -> (r: Vec<u8>)
    ensures
        r@ == reply_frame_spec(sel),
{
    let mut out: Vec<u8> = Vec::new();
    push_u32(&mut out, TAG_REPLY);
    push_u32(&mut out, sel.tweep_id);
    push_u32(&mut out, sel.reply_id);
    assert(out@ =~= reply_frame_spec(sel));
    out
}

fn read_u32_at(bytes: &[u8], pos: usize) -> (r: u32)
    requires
        pos + 4 <= bytes@.len(),
    ensures
        r as int == u32_at(bytes@, pos as int),
{
    let b0 = bytes[pos] as u32;
    let b1 = bytes[pos + 1] as u32;
    let b2 = bytes[pos + 2] as u32;
    let b3 = bytes[pos + 3] as u32;
    b0 + 256 * b1 + 65536 * (b2 + 256 * b3)
}

/// Reads a reply frame back: the reply it carries, or `None` where the
/// bytes are not one frame of a reply.
pub fn parse_reply_frame(bytes: &[u8]) -> (r: Option<ReplySelection>)
    ensures
        r == parse_reply_frame_spec(bytes@),
{
    if bytes.len() != REPLY_FRAME_LEN {
        return None;
    }
    if read_u32_at(bytes, 0) != TAG_REPLY {
        return None;
    }
    Some(ReplySelection { tweep_id: read_u32_at(bytes, 4), reply_id: read_u32_at(bytes, 8) })
}

proof fn lemma_u32_bytes(v: u32)
    ensures
        u32_at(u32_bytes(v), 0) == v,
{
    let b = u32_bytes(v);
    assert(b[0] as int == v % 256);
    assert(b[1] as int == (v / 256) % 256);
    assert(b[2] as int == (v / 65536) % 256);
    assert(b[3] as int == (v / 16777216) % 256);
    assert(v as int == v % 256 + 256 * ((v / 256) % 256) + 65536 * ((v / 65536) % 256 + 256 * ((v / 16777216) % 256)))
        by (nonlinear_arith);
}

/// Encoding a reply and reading the frame back gives the same record id
/// and reply index.
pub proof fn lemma_reply_frame_round_trip(sel: ReplySelection)
    ensures
        parse_reply_frame_spec(reply_frame_spec(sel)) == Some(sel),
{
    let f = reply_frame_spec(sel);
    lemma_u32_bytes(TAG_REPLY);
    lemma_u32_bytes(sel.tweep_id);
    lemma_u32_bytes(sel.reply_id);
    assert(f.subrange(0, 4) =~= u32_bytes(TAG_REPLY));
    assert(f.subrange(4, 8) =~= u32_bytes(sel.tweep_id));
    assert(f.subrange(8, 12) =~= u32_bytes(sel.reply_id));
    assert(u32_at(f, 0) == u32_at(f.subrange(0, 4), 0));
    assert(u32_at(f, 4) == u32_at(f.subrange(4, 8), 0));
    assert(u32_at(f, 8) == u32_at(f.subrange(8, 12), 0));
}

} // verus!
