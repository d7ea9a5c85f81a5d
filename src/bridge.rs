//! One step of the ingestion loop: a message of the source pipe is read,
//! applied to the record list, and its event queued for every connection.
use vstd::prelude::*;

use crate::decoder::FeedError;
use crate::feed::{apply_spec, message_spec, read_message, MessageView, TweepList, TweepView};
use crate::hub::{publish_spec, Hub, HubView};

verus! {

/// The list and the hub after a message.
pub open spec fn ingest_spec(list: Seq<TweepView>, hub: HubView, m: MessageView) -> (Seq<TweepView>, HubView) {
    let (after, ev) = apply_spec(list, m);
    match ev {
        Some(e) => (after, publish_spec(hub, e)),
        None => (after, hub),
    }
}

/// Reads the message at `pos`, applies it to the list and queues its event
/// for every connection; returns the position just past it. On an error
/// nothing changes: `Truncated` asks for more bytes, any other error means
/// the feed can no longer be trusted.
pub fn ingest_message(
    list: &mut TweepList,
    hub: &mut Hub,
    table: &Vec<char>,
    bytes: &[u8],
    pos: usize,
) -> (r: Result<usize, FeedError>)
    ensures
        match r {
            Ok(end) => message_spec(table@, bytes@, pos as int) matches Ok((m, e)) && e == end
                && (final(list)@, final(hub)@) == ingest_spec(old(list)@, old(hub)@, m),
            Err(err) => message_spec(table@, bytes@, pos as int) == Err::<(MessageView, int), FeedError>(err)
                && final(list)@ == old(list)@ && final(hub)@ == old(hub)@,
        },
{
    match read_message(table, bytes, pos) {
        Err(e) => Err(e),
        Ok((m, end)) => {
            match list.apply(m) {
                Some(e) => hub.publish(&e),
                None => {},
            }
            Ok(end)
        },
    }
}

} // verus!
