//! Messages of the source pipe, the shared record list and its change events.
use vstd::prelude::*;

use crate::decoder::{decode, decode_spec, SC3String, SC3StringView, FeedError, Marker};

verus! {

/// Tag of a message that empties the record list.
pub const TAG_CLEAR: u32 = 0x434c4541;

/// Tag of a message that carries a new record.
pub const TAG_RECORD: u32 = 0x54574550;

/// Tag of a message that sets whether a record can be replied to.
pub const TAG_SET_REPLY_POSSIBLE: u32 = 0x53545250;

/// A decoded record, with its candidate replies.
#[derive(Debug)]
pub struct Tweep {
    pub id: u32,
    pub tab: u16,
    pub pfp_id: u16,
    pub different_day: bool,
    pub author_username: SC3String,
    pub author_realname: SC3String,
    pub content: SC3String,
    pub replies: Vec<SC3String>,
    pub reply_possible: bool,
}

pub struct TweepView {
    pub id: u32,
    pub tab: u16,
    pub pfp_id: u16,
    pub different_day: bool,
    pub author_username: SC3StringView,
    pub author_realname: SC3StringView,
    pub content: SC3StringView,
    pub replies: Seq<SC3StringView>,
    pub reply_possible: bool,
}

impl View for Tweep {
    type V = TweepView;

    open spec fn view(&self) -> TweepView {
        TweepView {
            id: self.id,
            tab: self.tab,
            pfp_id: self.pfp_id,
            different_day: self.different_day,
            author_username: self.author_username@,
            author_realname: self.author_realname@,
            content: self.content@,
            replies: self.replies@.map_values(|s: SC3String| s@),
            reply_possible: self.reply_possible,
        }
    }
}

/// One message read from the source pipe.
#[derive(Debug)]
pub enum Message {
    Clear,
    NewTweep(Tweep),
    SetReplyPossible { id: u32, possible: bool },
}

pub enum MessageView {
    Clear,
    NewTweep(TweepView),
    SetReplyPossible { id: u32, possible: bool },
}

impl View for Message {
    type V = MessageView;

    open spec fn view(&self) -> MessageView {
        match self {
            Message::Clear => MessageView::Clear,
            Message::NewTweep(t) => MessageView::NewTweep(t@),
            Message::SetReplyPossible { id, possible } => MessageView::SetReplyPossible { id: *id, possible: *possible },
        }
    }
}

/// A change of the record list, as told to every connection.
#[derive(Debug)]
pub enum Event {
    Clear,
    NewTweep(Tweep),
    SetReplyPossible { id: u32, possible: bool },
}

pub type EventView = MessageView;

impl View for Event {
    type V = EventView;

    open spec fn view(&self) -> EventView {
        match self {
            Event::Clear => MessageView::Clear,
            Event::NewTweep(t) => MessageView::NewTweep(t@),
            Event::SetReplyPossible { id, possible } => MessageView::SetReplyPossible { id: *id, possible: *possible },
        }
    }
}

impl Event {
    /// A copy of this event.
    pub fn duplicate(&self) -> (r: Event)
        ensures
            r@ == self@,
    {
        match self {
            Event::Clear => Event::Clear,
            Event::NewTweep(t) => Event::NewTweep(t.duplicate()),
            Event::SetReplyPossible { id, possible } => Event::SetReplyPossible { id: *id, possible: *possible },
        }
    }
}

/// Little-endian value of the two bytes at `pos`.
pub open spec fn u16_at(bytes: Seq<u8>, pos: int) -> int {
    bytes[pos] + 256 * bytes[pos + 1]
}

/// Little-endian value of the four bytes at `pos`.
pub open spec fn u32_at(bytes: Seq<u8>, pos: int) -> int {
    u16_at(bytes, pos) + 65536 * u16_at(bytes, pos + 2)
}

fn read_u16(bytes: &[u8], pos: usize) -> (r: u16)
    requires
        pos + 2 <= bytes@.len(),
    ensures
        r as int == u16_at(bytes@, pos as int),
{
    (bytes[pos] as u16) + 256 * (bytes[pos + 1] as u16)
}

fn read_u32(bytes: &[u8], pos: usize) -> (r: u32)
    requires
        pos + 4 <= bytes@.len(),
    ensures
        r as int == u32_at(bytes@, pos as int),
{
    let _len = bytes.len();
    let lo = read_u16(bytes, pos);
    let hi = read_u16(bytes, pos + 2);
    (lo as u32) + 65536 * (hi as u32)
}

/// Decoding of `n` strings one after the other from `pos`.
pub open spec fn decode_many(table: Seq<char>, bytes: Seq<u8>, pos: int, n: nat) -> Result<(Seq<SC3StringView>, int), FeedError>
    decreases n,
{
    if n == 0 {
        Ok((Seq::empty(), pos))
    } else {
        match decode_many(table, bytes, pos, (n - 1) as nat) {
            Ok((done, p)) => match decode_spec(table, bytes, p) {
                Ok((s, end)) => Ok((done.push(s), end)),
                Err(e) => Err(e),
            },
            Err(e) => Err(e),
        }
    }
}

/// Reading of a record's body (what follows its tag) at `pos`.
pub open spec fn tweep_spec(table: Seq<char>, bytes: Seq<u8>, pos: int) -> Result<(TweepView, int), FeedError> {
    if pos + 12 > bytes.len() {
        Err(FeedError::Truncated)
    } else {
        match decode_many(table, bytes, pos + 12, 3) {
            Err(e) => Err(e),
            Ok((names, p)) => match decode_many(table, bytes, p, u16_at(bytes, pos + 10) as nat) {
                Err(e) => Err(e),
                Ok((replies, end)) => Ok((
                    TweepView {
                        id: u32_at(bytes, pos) as u32,
                        tab: u16_at(bytes, pos + 4) as u16,
                        pfp_id: u16_at(bytes, pos + 6) as u16,
                        different_day: u16_at(bytes, pos + 8) != 0,
                        author_username: names[0],
                        author_realname: names[1],
                        content: names[2],
                        replies,
                        reply_possible: false,
                    },
                    end,
                )),
            },
        }
    }
}

/// Reading of the message that starts at `pos`: the message and the
/// position just past it.
pub open spec fn message_spec(table: Seq<char>, bytes: Seq<u8>, pos: int) -> Result<(MessageView, int), FeedError> {
    if pos + 4 > bytes.len() {
        Err(FeedError::Truncated)
    } else {
        let tag = u32_at(bytes, pos);
        if tag == TAG_CLEAR {
            Ok((MessageView::Clear, pos + 4))
        } else if tag == TAG_RECORD {
            match tweep_spec(table, bytes, pos + 4) {
                Ok((t, end)) => Ok((MessageView::NewTweep(t), end)),
                Err(e) => Err(e),
            }
        } else if tag == TAG_SET_REPLY_POSSIBLE {
            if pos + 10 > bytes.len() {
                Err(FeedError::Truncated)
            } else {
                Ok((
                    MessageView::SetReplyPossible {
                        id: u32_at(bytes, pos + 4) as u32,
                        possible: u16_at(bytes, pos + 8) != 0,
                    },
                    pos + 10,
                ))
            }
        } else {
            Err(FeedError::UnknownTag)
        }
    }
}

fn decode_strings(table: &Vec<char>, bytes: &[u8], start: usize, n: u16) -> (r: Result<(Vec<SC3String>, usize), FeedError>)
    ensures
        match r {
            Ok((v, end)) => decode_many(table@, bytes@, start as int, n as nat)
                == Ok::<(Seq<SC3StringView>, int), FeedError>((v@.map_values(|s: SC3String| s@), end as int)),
            Err(e) => decode_many(table@, bytes@, start as int, n as nat) == Err::<(Seq<SC3StringView>, int), FeedError>(e),
        },
        r matches Ok((v, _)) ==> v@.len() == n,
{
    let mut out: Vec<SC3String> = Vec::new();
    let mut pos: usize = start;
    let mut k: u16 = 0;
    assert(out@.map_values(|s: SC3String| s@) =~= Seq::<SC3StringView>::empty());
    while k < n
        invariant
            k <= n,
            out@.len() == k,
            decode_many(table@, bytes@, start as int, k as nat)
                == Ok::<(Seq<SC3StringView>, int), FeedError>((out@.map_values(|s: SC3String| s@), pos as int)),
        decreases n - k,
    {
        match decode(table, bytes, pos) {
            Ok((s, end)) => {
                proof {
                    assert(out@.push(s).map_values(|s: SC3String| s@)
                        =~= out@.map_values(|s: SC3String| s@).push(s@));
                }
                out.push(s);
                pos = end;
            },
            Err(e) => {
                proof {
                    lemma_decode_many_fails_on(table@, bytes@, start as int, k as nat, n as nat, e);
                }
                return Err(e);
            },
        }
        k = k + 1;
    }
    Ok((out, pos))
}

proof fn lemma_decode_many_fails_on(table: Seq<char>, bytes: Seq<u8>, start: int, k: nat, n: nat, e: FeedError)
    requires
        k < n,
        decode_many(table, bytes, start, k) matches Ok((_, p)) && decode_spec(table, bytes, p) == Err::<(SC3StringView, int), FeedError>(e),
    ensures
        decode_many(table, bytes, start, n) == Err::<(Seq<SC3StringView>, int), FeedError>(e),
    decreases n - k,
{
    if k + 1 < n {
        lemma_decode_many_fails_from(table, bytes, start, (k + 1) as nat, n, e);
    }
}

proof fn lemma_decode_many_fails_from(table: Seq<char>, bytes: Seq<u8>, start: int, k: nat, n: nat, e: FeedError)
    requires
        k <= n,
        decode_many(table, bytes, start, k) == Err::<(Seq<SC3StringView>, int), FeedError>(e),
    ensures
        decode_many(table, bytes, start, n) == Err::<(Seq<SC3StringView>, int), FeedError>(e),
    decreases n - k,
{
    if k < n {
        lemma_decode_many_fails_from(table, bytes, start, (k + 1) as nat, n, e);
    }
}


/// Reads a record's fixed fields, its three strings and its replies, which
/// start at `pos`; the record is not yet open to replies.
pub fn read_tweep(table: &Vec<char>, bytes: &[u8], pos: usize) -> (r: Result<(Tweep, usize), FeedError>)
    ensures
        match r {
            Ok((t, end)) => tweep_spec(table@, bytes@, pos as int) == Ok::<(TweepView, int), FeedError>((t@, end as int)),
            Err(e) => tweep_spec(table@, bytes@, pos as int) == Err::<(TweepView, int), FeedError>(e),
        },
{
    if pos > bytes.len() || bytes.len() - pos < 12 {
        return Err(FeedError::Truncated);
    }
    let id = read_u32(bytes, pos);
    let tab = read_u16(bytes, pos + 4);
    let pfp_id = read_u16(bytes, pos + 6);
    let different_day = read_u16(bytes, pos + 8);
    let reply_count = read_u16(bytes, pos + 10);
    let mut names = match decode_strings(table, bytes, pos + 12, 3) {
        Ok((v, end)) => (v, end),
        Err(e) => return Err(e),
    };
    let (replies, end) = match decode_strings(table, bytes, names.1, reply_count) {
        Ok(x) => x,
        Err(e) => return Err(e),
    };
    let ghost names_view = names.0@.map_values(|s: SC3String| s@);
    let content = names.0.pop().unwrap();
    let author_realname = names.0.pop().unwrap();
    let author_username = names.0.pop().unwrap();
    let t = Tweep {
        id,
        tab,
        pfp_id,
        different_day: different_day != 0,
        author_username,
        author_realname,
        content,
        replies,
        reply_possible: false,
    };
    proof {
        assert(names_view[0] == author_username@);
        assert(names_view[1] == author_realname@);
        assert(names_view[2] == content@);
    }
    Ok((t, end))
}

/// Reads the message that starts at `pos`; returns it with the position
/// just past it. An unknown tag means that the feed can no longer be
/// trusted.
pub fn read_message(table: &Vec<char>, bytes: &[u8], pos: usize) -> (r: Result<(Message, usize), FeedError>)
    ensures
        match r {
            Ok((m, end)) => message_spec(table@, bytes@, pos as int) == Ok::<(MessageView, int), FeedError>((m@, end as int)),
            Err(e) => message_spec(table@, bytes@, pos as int) == Err::<(MessageView, int), FeedError>(e),
        },
{
    if pos > bytes.len() || bytes.len() - pos < 4 {
        return Err(FeedError::Truncated);
    }
    let tag = read_u32(bytes, pos);
    if tag == TAG_CLEAR {
        Ok((Message::Clear, pos + 4))
    } else if tag == TAG_RECORD {
        match read_tweep(table, bytes, pos + 4) {
            Ok((t, end)) => Ok((Message::NewTweep(t), end)),
            Err(e) => Err(e),
        }
    } else if tag == TAG_SET_REPLY_POSSIBLE {
        if bytes.len() - pos < 10 {
            return Err(FeedError::Truncated);
        }
        let id = read_u32(bytes, pos + 4);
        let possible = read_u16(bytes, pos + 8);
        Ok((Message::SetReplyPossible { id, possible: possible != 0 }, pos + 10))
    } else {
        Err(FeedError::UnknownTag)
    }
}


impl Tweep {
    /// A copy of this record.
    pub fn duplicate(&self) -> (r: Tweep)
        ensures
            r@ == self@,
    {
        let mut replies: Vec<SC3String> = Vec::new();
        let mut i: usize = 0;
        while i < self.replies.len()
            invariant
                i <= self.replies@.len(),
                replies@.map_values(|s: SC3String| s@) =~= self.replies@.subrange(0, i as int).map_values(|s: SC3String| s@),
            decreases self.replies@.len() - i,
        {
            let ghost prev = replies@;
            let d = self.replies[i].duplicate();
            replies.push(d);
            proof {
                assert(replies@ == prev.push(d));
                assert(self.replies@.subrange(0, i + 1) =~= self.replies@.subrange(0, i as int).push(self.replies@[i as int]));
                assert(replies@.map_values(|s: SC3String| s@)
                    =~= prev.map_values(|s: SC3String| s@).push(d@));
                assert(self.replies@.subrange(0, i + 1).map_values(|s: SC3String| s@)
                    =~= self.replies@.subrange(0, i as int).map_values(|s: SC3String| s@).push(self.replies@[i as int]@));
            }
            i = i + 1;
        }
        assert(self.replies@.subrange(0, self.replies@.len() as int) =~= self.replies@);
        Tweep {
            id: self.id,
            tab: self.tab,
            pfp_id: self.pfp_id,
            different_day: self.different_day,
            author_username: self.author_username.duplicate(),
            author_realname: self.author_realname.duplicate(),
            content: self.content.duplicate(),
            replies,
            reply_possible: self.reply_possible,
        }
    }
}

/// `i` is the first position of the list that holds the record `id`.
pub open spec fn is_first_with_id(list: Seq<TweepView>, id: u32, i: int) -> bool {
    &&& 0 <= i < list.len()
    &&& list[i].id == id
    &&& forall|j: int| 0 <= j < i ==> list[j].id != id
}

/// Position of the first record with this id, or -1 where there is none.
pub open spec fn index_of_id(list: Seq<TweepView>, id: u32) -> int
    decreases list.len(),
{
    if list.len() == 0 {
        -1
    } else {
        let k = index_of_id(list.drop_last(), id);
        if k >= 0 {
            k
        } else if list.last().id == id {
            list.len() - 1
        } else {
            -1
        }
    }
}

pub proof fn lemma_index_of_id(list: Seq<TweepView>, id: u32)
    ensures
        has_id(list, id) ==> is_first_with_id(list, id, index_of_id(list, id)),
        !has_id(list, id) ==> index_of_id(list, id) == -1,
    decreases list.len(),
{
    if list.len() > 0 {
        let init = list.drop_last();
        lemma_index_of_id(init, id);
        if has_id(init, id) {
            let k = index_of_id(init, id);
            assert(init[k] == list[k]);
            assert forall|m: int| 0 <= m < k implies list[m].id != id by {
                assert(init[m] == list[m]);
            }
            assert(has_id(list, id));
        } else {
            if has_id(list, id) {
                let j = choose|j: int| 0 <= j < list.len() && list[j].id == id;
                if j < list.len() - 1 {
                    assert(init[j] == list[j]);
                    assert(has_id(init, id));
                }
                assert(list.last().id == id);
                assert forall|m: int| 0 <= m < list.len() - 1 implies list[m].id != id by {
                    assert(init[m] == list[m]);
                }
            } else {
                assert(list[list.len() - 1] == list.last());
            }
        }
    }
}

pub open spec fn has_id(list: Seq<TweepView>, id: u32) -> bool {
    exists|i: int| 0 <= i < list.len() && list[i].id == id
}

/// The list after a message, and the event that the message gives, if any.
pub open spec fn apply_spec(list: Seq<TweepView>, m: MessageView) -> (Seq<TweepView>, Option<EventView>) {
    match m {
        MessageView::Clear => (Seq::empty(), Some(MessageView::Clear)),
        MessageView::NewTweep(t) => (list.push(t), Some(MessageView::NewTweep(t))),
        MessageView::SetReplyPossible { id, possible } => {
            let k = index_of_id(list, id);
            if k >= 0 {
                (
                    list.update(k, TweepView { reply_possible: possible, ..list[k] }),
                    Some(MessageView::SetReplyPossible { id, possible }),
                )
            } else {
                (list, None)
            }
        },
    }
}

/// The list after a run of messages, and the events they gave, in order.
pub open spec fn apply_all(list: Seq<TweepView>, ms: Seq<MessageView>) -> (Seq<TweepView>, Seq<EventView>)
    decreases ms.len(),
{
    if ms.len() == 0 {
        (list, Seq::empty())
    } else {
        let (before, events) = apply_all(list, ms.drop_last());
        let (after, ev) = apply_spec(before, ms.last());
        match ev {
            Some(e) => (after, events.push(e)),
            None => (after, events),
        }
    }
}

/// The ordered list of records of one session.
pub struct TweepList {
    pub tweeps: Vec<Tweep>,
}

impl View for TweepList {
    type V = Seq<TweepView>;

    open spec fn view(&self) -> Seq<TweepView> {
        self.tweeps@.map_values(|t: Tweep| t@)
    }
}

proof fn lemma_apply_known_id(list: Seq<TweepView>, id: u32, possible: bool, i: int)
    requires
        is_first_with_id(list, id, i),
    ensures
        apply_spec(list, MessageView::SetReplyPossible { id, possible })
            == (list.update(i, TweepView { reply_possible: possible, ..list[i] }), Some(MessageView::SetReplyPossible { id, possible })),
{
    assert(has_id(list, id));
    lemma_index_of_id(list, id);
    lemma_first_with_id_unique(list, id, i, index_of_id(list, id));
}

pub proof fn lemma_first_with_id_unique(list: Seq<TweepView>, id: u32, i: int, k: int)
    requires
        is_first_with_id(list, id, i),
        is_first_with_id(list, id, k),
    ensures
        i == k,
{
}

impl TweepList {
    pub fn new() -> (r: TweepList)
        ensures
            r@ == Seq::<TweepView>::empty(),
    {
        let r = TweepList { tweeps: Vec::new() };
        assert(r@ =~= Seq::<TweepView>::empty());
        r
    }

    pub fn len(&self) -> (r: usize)
        ensures
            r == self@.len(),
    {
        self.tweeps.len()
    }

    /// Position of the first record with this id, if any.
    pub fn position_of(&self, id: u32) -> (r: Option<usize>)
        ensures
            match r {
                Some(i) => is_first_with_id(self@, id, i as int),
                None => !has_id(self@, id),
            },
    {
        let mut i: usize = 0;
        while i < self.tweeps.len()
            invariant
                i <= self.tweeps@.len(),
                forall|j: int| 0 <= j < i ==> self@[j].id != id,
            decreases self.tweeps@.len() - i,
        {
            if self.tweeps[i].id == id {
                return Some(i);
            }
            i = i + 1;
        }
        None
    }

    /// Applies one message of the source pipe to the list; returns the event
    /// to tell every connection, or `None` where the message changed nothing
    /// (a reply flag for a record that is not in the list).
    pub fn apply(&mut self, m: Message) -> (ev: Option<Event>)
        ensures
            apply_spec(old(self)@, m@) == (final(self)@, match ev {
                Some(e) => Some(e@),
                None => None::<EventView>,
            }),
    {
        match m {
            Message::Clear => {
                self.tweeps.clear();
                assert(self@ =~= Seq::<TweepView>::empty());
                Some(Event::Clear)
            },
            Message::NewTweep(t) => {
                let copy = t.duplicate();
                self.tweeps.push(t);
                assert(self@ =~= old(self)@.push(copy@));
                Some(Event::NewTweep(copy))
            },
            Message::SetReplyPossible { id, possible } => {
                match self.position_of(id) {
                    Some(i) => {
                        let ghost before = self@;
                        self.tweeps[i].reply_possible = possible;
                        proof {
                            assert(self@ =~= before.update(i as int, TweepView { reply_possible: possible, ..before[i as int] }));
                            lemma_apply_known_id(before, id, possible, i as int);
                        }
                        Some(Event::SetReplyPossible { id, possible })
                    },
                    None => {
                        proof {
                            lemma_index_of_id(self@, id);
                        }
                        None
                    },
                }
            },
        }
    }

    /// One new-record event per record, in list order: what a connection
    /// that joins now is told first.
    pub fn replay(&self) -> (r: Vec<Event>)
        ensures
            r@.map_values(|e: Event| e@) == replay_spec(self@),
    {
        let mut out: Vec<Event> = Vec::new();
        let mut i: usize = 0;
        while i < self.tweeps.len()
            invariant
                i <= self.tweeps@.len(),
                out@.map_values(|e: Event| e@) =~= replay_spec(self@.subrange(0, i as int)),
            decreases self.tweeps@.len() - i,
        {
            let e = Event::NewTweep(self.tweeps[i].duplicate());
            out.push(e);
            i = i + 1;
            assert(self@.subrange(0, i as int).drop_last() =~= self@.subrange(0, i - 1));
            assert(out@.map_values(|e: Event| e@) =~= replay_spec(self@.subrange(0, i as int)));
        }
        assert(self@.subrange(0, self@.len() as int) =~= self@);
        out
    }
}

/// One new-record event per record of the list, in order.
pub open spec fn replay_spec(list: Seq<TweepView>) -> Seq<EventView>
    decreases list.len(),
{
    if list.len() == 0 {
        Seq::empty()
    } else {
        replay_spec(list.drop_last()).push(MessageView::NewTweep(list.last()))
    }
}

pub open spec fn is_clear(e: EventView) -> bool {
    e matches MessageView::Clear
}

/// Records arriving one after the other, as messages.
pub open spec fn new_tweep_messages(ts: Seq<TweepView>) -> Seq<MessageView> {
    ts.map_values(|t: TweepView| MessageView::NewTweep(t))
}

proof fn lemma_new_tweeps_appended(list: Seq<TweepView>, ts: Seq<TweepView>)
    ensures
        apply_all(list, new_tweep_messages(ts)).0 == list + ts,
        apply_all(list, new_tweep_messages(ts)).1 == new_tweep_messages(ts),
        forall|i: int| 0 <= i < ts.len() ==> !is_clear(#[trigger] apply_all(list, new_tweep_messages(ts)).1[i]),
    decreases ts.len(),
{
    if ts.len() > 0 {
        assert(new_tweep_messages(ts).drop_last() =~= new_tweep_messages(ts.drop_last()));
        lemma_new_tweeps_appended(list, ts.drop_last());
        assert(list + ts =~= (list + ts.drop_last()).push(ts.last()));
        assert(new_tweep_messages(ts) =~= new_tweep_messages(ts.drop_last()).push(MessageView::NewTweep(ts.last())));
    } else {
        assert(list + ts =~= list);
        assert(new_tweep_messages(ts) =~= Seq::<MessageView>::empty());
    }
}

/// A clear message that follows any number of new records empties the list,
/// and of all the events given only the last is a clear event.
pub proof fn lemma_clear_after_records(list: Seq<TweepView>, ts: Seq<TweepView>)
    ensures
        ({
            let (after, events) = apply_all(list, new_tweep_messages(ts).push(MessageView::Clear));
            &&& after.len() == 0
            &&& events.len() == ts.len() + 1
            &&& is_clear(events.last())
            &&& forall|i: int| 0 <= i < events.len() - 1 ==> !is_clear(#[trigger] events[i])
        }),
{
    let ms = new_tweep_messages(ts).push(MessageView::Clear);
    assert(ms.drop_last() =~= new_tweep_messages(ts));
    lemma_new_tweeps_appended(list, ts);
    let events = apply_all(list, ms).1;
    assert forall|i: int| 0 <= i < events.len() - 1 implies !is_clear(#[trigger] events[i]) by {
        assert(events[i] == apply_all(list, new_tweep_messages(ts)).1[i]);
    }
}

/// A reply flag for a record that the list does not hold changes nothing
/// and gives no event.
pub proof fn lemma_unknown_id_ignored(list: Seq<TweepView>, id: u32, possible: bool)
    requires
        !has_id(list, id),
    ensures
        apply_spec(list, MessageView::SetReplyPossible { id, possible }) == (list, None::<EventView>),
{
    lemma_index_of_id(list, id);
}

} // verus!
