//! A session: the unit of isolation. One topic of raw pipe lines and one
//! of structured chat messages, each independently fanned out to every
//! attached connection. A connection holds one cursor per topic; inbound
//! payloads are published to the topic their classification names, and
//! outbound reads hand back the exact wire frame for whichever topic had
//! something pending.

use vstd::prelude::*;

use crate::chat::ChatMessage;
use crate::chat::Inbound;
use crate::chat::chat_json;
use crate::chat::chat_to_json;
use crate::chat::frame_pipe;
use crate::chat::pipe_frame;
use crate::topic::Recv;
use crate::topic::Topic;

verus! {

/// One session's two broadcast topics.
pub struct Session {
    pub pipe: Topic<Vec<u8>>,
    pub chat: Topic<ChatMessage>,
}

/// One connection's handles into a session: an independent cursor per
/// topic, obtained at attach time.
pub struct Conn {
    pub pipe_sub: usize,
    pub chat_sub: usize,
}

impl Session {
    pub open spec fn wf(self) -> bool {
        &&& self.pipe.wf()
        &&& self.chat.wf()
    }

    pub open spec fn conn_wf(self, conn: Conn) -> bool {
        &&& conn.pipe_sub < self.pipe.cursors@.len()
        &&& conn.chat_sub < self.chat.cursors@.len()
    }

    /// A fresh session: two empty topics of the same bounded capacity.
    pub fn new(capacity: usize) -> (s: Session)
        requires
            capacity >= 1,
        ensures
            s.wf(),
            s.pipe.capacity == capacity,
            s.chat.capacity == capacity,
            s.pipe.published@ == Seq::<Vec<u8>>::empty(),
            s.chat.published@ == Seq::<ChatMessage>::empty(),
            s.pipe.cursors@ == Seq::<usize>::empty(),
            s.chat.cursors@ == Seq::<usize>::empty(),
    {
        Session { pipe: Topic::new(capacity), chat: Topic::new(capacity) }
    }

    /// Attaches one connection: a fresh cursor on each topic, starting at
    /// the topic's current end, so the connection observes only what is
    /// published after it attached. No other cursor moves.
    pub fn attach(&mut self) -> (conn: Conn)
        requires
            old(self).wf(),
        ensures
            final(self).wf(),
            final(self).conn_wf(conn),
            conn.pipe_sub == old(self).pipe.cursors@.len(),
            conn.chat_sub == old(self).chat.cursors@.len(),
            final(self).pipe.published == old(self).pipe.published,
            final(self).chat.published == old(self).chat.published,
            final(self).pipe.capacity == old(self).pipe.capacity,
            final(self).chat.capacity == old(self).chat.capacity,
            final(self).pipe.cursors@ == old(self).pipe.cursors@.push(
                old(self).pipe.published@.len() as usize,
            ),
            final(self).chat.cursors@ == old(self).chat.cursors@.push(
                old(self).chat.published@.len() as usize,
            ),
            final(self).pipe.pending(conn.pipe_sub as int) == Seq::<Vec<u8>>::empty(),
            final(self).chat.pending(conn.chat_sub as int) == Seq::<ChatMessage>::empty(),
    {
        let pipe_sub = self.pipe.subscribe();
        let chat_sub = self.chat.subscribe();
        Conn { pipe_sub, chat_sub }
    }

    /// Publishes one classified inbound payload: chat goes verbatim to
    /// the chat topic, pipe text verbatim to the pipe topic; the other
    /// topic and every cursor stay untouched. Never fails and never
    /// blocks, whatever any subscriber is doing.
    pub fn ingress(&mut self, msg: Inbound)
        requires
            old(self).wf(),
        ensures
            final(self).wf(),
            final(self).pipe.cursors == old(self).pipe.cursors,
            final(self).chat.cursors == old(self).chat.cursors,
            final(self).pipe.capacity == old(self).pipe.capacity,
            final(self).chat.capacity == old(self).chat.capacity,
            msg matches Inbound::Chat(m) ==> final(self).chat.published@ == old(self).chat.published@.push(m) && final(self).pipe == old(self).pipe,
            msg matches Inbound::Pipe(line) ==> final(self).pipe.published@ == old(self).pipe.published@.push(line) && final(self).chat == old(self).chat,
    {
        match msg {
            Inbound::Chat(m) => self.chat.publish(m),
            Inbound::Pipe(line) => self.pipe.publish(line),
        }
    }

    /// One outbound read of the pipe topic for one connection. If the
    /// connection's backlog has a line pending, the line leaves framed as
    /// `pipe:` + text; a lagged or caught-up read returns nothing (a
    /// lagged one advances the cursor, and the next read delivers).
    pub fn egress_pipe(&mut self, conn: &Conn) -> (r: Option<Vec<u8>>)
        requires
            old(self).wf(),
            old(self).conn_wf(*conn),
        ensures
            final(self).wf(),
            final(self).conn_wf(*conn),
            final(self).chat == old(self).chat,
            final(self).pipe.published == old(self).pipe.published,
            final(self).pipe.capacity == old(self).pipe.capacity,
            final(self).pipe.cursors@.len() == old(self).pipe.cursors@.len(),
            forall|s: int|
                0 <= s < old(self).pipe.cursors@.len() && s != conn.pipe_sub ==> final(self).pipe.cursors@[s] == old(self).pipe.cursors@[s],
            ({
                let len = old(self).pipe.published@.len() as int;
                let c = old(self).pipe.cursors@[conn.pipe_sub as int] as int;
                let cap = old(self).pipe.capacity as int;
                &&& (c >= len ==> r is None && final(self).pipe == old(self).pipe)
                &&& (c < len && len - c > cap ==> r is None && final(self).pipe.cursors@[
                    conn.pipe_sub as int
                ] == len - cap && final(self).pipe.pending(conn.pipe_sub as int) == old(self).pipe.pending(conn.pipe_sub as int))
                &&& (c < len && len - c <= cap ==> r is Some && (r matches Some(v) ==> v@
                    == pipe_frame(old(self).pipe.published@[c]@)) && final(self).pipe.cursors@[
                    conn.pipe_sub as int
                ] == c + 1 && final(self).pipe.pending(conn.pipe_sub as int) == old(self).pipe.pending(conn.pipe_sub as int).skip(1))
            }),
    {
        match self.pipe.try_next(conn.pipe_sub) {
            Recv::Msg(i) => {
                let framed = frame_pipe(&self.pipe.published[i]);
                proof {
                    assert(self.pipe.cursors@ =~= old(self).pipe.cursors@.update(
                        conn.pipe_sub as int,
                        (old(self).pipe.cursors@[conn.pipe_sub as int] + 1) as usize,
                    ));
                }
                Some(framed)
            },
            _ => None,
        }
    }

    /// One outbound read of the chat topic for one connection. A pending
    /// chat message leaves as its exact JSON serialization, with no pipe
    /// prefix; a lagged or caught-up read returns nothing.
    pub fn egress_chat(&mut self, conn: &Conn) -> (r: Option<Vec<u8>>)
        requires
            old(self).wf(),
            old(self).conn_wf(*conn),
        ensures
            final(self).wf(),
            final(self).conn_wf(*conn),
            final(self).pipe == old(self).pipe,
            final(self).chat.published == old(self).chat.published,
            final(self).chat.capacity == old(self).chat.capacity,
            final(self).chat.cursors@.len() == old(self).chat.cursors@.len(),
            forall|s: int|
                0 <= s < old(self).chat.cursors@.len() && s != conn.chat_sub ==> final(self).chat.cursors@[s] == old(self).chat.cursors@[s],
            ({
                let len = old(self).chat.published@.len() as int;
                let c = old(self).chat.cursors@[conn.chat_sub as int] as int;
                let cap = old(self).chat.capacity as int;
                &&& (c >= len ==> r is None && final(self).chat == old(self).chat)
                &&& (c < len && len - c > cap ==> r is None && final(self).chat.cursors@[
                    conn.chat_sub as int
                ] == len - cap && final(self).chat.pending(conn.chat_sub as int) == old(self).chat.pending(conn.chat_sub as int))
                &&& (c < len && len - c <= cap ==> r is Some && (r matches Some(v) ==> v@
                    == chat_json(
                    old(self).chat.published@[c].sender@,
                    old(self).chat.published@[c].content@,
                    old(self).chat.published@[c].timestamp as nat,
                )) && final(self).chat.cursors@[conn.chat_sub as int] == c + 1 && final(self).chat.pending(conn.chat_sub as int) == old(self).chat.pending(
                    conn.chat_sub as int,
                ).skip(1))
            }),
    {
        match self.chat.try_next(conn.chat_sub) {
            Recv::Msg(i) => {
                let framed = chat_to_json(&self.chat.published[i]);
                Some(framed)
            },
            _ => None,
        }
    }
}

/// Exact pipe delivery: when a pipe line is published to a session, a
/// connection whose pipe cursor was fully caught up has, afterwards, a
/// backlog of exactly that line — so its next pipe read returns precisely
/// `pipe:` + the line, by `egress_pipe`. A subscriber that stays within
/// the capacity (`lemma_keeping_up_observes_all`) therefore observes
/// every line a producer emits, in publish order, each framed this way.
pub proof fn lemma_pipe_delivered_exactly(
    before: Session,
    after: Session,
    conn: Conn,
    line: Vec<u8>,
)
    requires
        before.wf(),
        before.conn_wf(conn),
        after.pipe.capacity == before.pipe.capacity,
        after.pipe.cursors == before.pipe.cursors,
        after.pipe.published@ == before.pipe.published@.push(line),
        before.pipe.cursors@[conn.pipe_sub as int] == before.pipe.published@.len(),
    ensures
        after.pipe.pending(conn.pipe_sub as int) == seq![line],
{
    assert(after.pipe.pending(conn.pipe_sub as int) =~= seq![line]);
}

/// Exact chat delivery: when a chat message is published to a session, a
/// connection whose chat cursor was fully caught up has, afterwards, a
/// backlog of exactly that one object — so its next chat read returns
/// precisely that message's serialization, nothing else, with no pipe
/// prefix (`egress_chat` and `lemma_frames_distinguishable` say the
/// rest). The relay republishes the value verbatim: timestamp and fields
/// are never rewritten.
pub proof fn lemma_chat_delivered_exactly(
    before: Session,
    after: Session,
    conn: Conn,
    m: ChatMessage,
)
    requires
        before.wf(),
        before.conn_wf(conn),
        after.chat.capacity == before.chat.capacity,
        after.chat.cursors == before.chat.cursors,
        after.chat.published@ == before.chat.published@.push(m),
        before.chat.cursors@[conn.chat_sub as int] == before.chat.published@.len(),
    ensures
        after.chat.pending(conn.chat_sub as int) == seq![m],
{
    assert(after.chat.pending(conn.chat_sub as int) =~= seq![m]);
}

} // verus!
