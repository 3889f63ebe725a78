//! Structured chat messages and the wire forms of the two message classes.
//!
//! A chat message is the immutable value `{sender, content, timestamp}`;
//! on the wire it is its JSON serialization with exactly those three
//! fields, in that order. A raw pipe line is sent as the literal prefix
//! `pipe:` followed by the line text. The two are distinguishable by the
//! first byte alone: serialized chat always begins with `{`, a pipe frame
//! with `p`.

use vstd::prelude::*;

use crate::bytes::push_all;

verus! {

/// Structured chat value: sender and content are UTF-8 text held as
/// bytes; the timestamp is assigned by the sender's clock and never
/// rewritten by the relay.
pub struct ChatMessage {
    pub sender: Vec<u8>,
    pub content: Vec<u8>,
    pub timestamp: u64,
}

/// One inbound payload after content-based classification: either it
/// parsed as the chat schema, or it is an opaque pipe line.
pub enum Inbound {
    Chat(ChatMessage),
    Pipe(Vec<u8>),
}

/// Classifies one inbound text payload. Parsing against the chat schema
/// is the collaborator's job; this is the routing decision on its
/// outcome: a successful parse is always chat, anything else is pipe
/// data, verbatim. A parse failure is never an error.
pub fn classify(text: Vec<u8>, parsed: Option<ChatMessage>) -> (r: Inbound)
    ensures
        parsed matches Some(m) ==> r == Inbound::Chat(m),
        parsed is None ==> r == Inbound::Pipe(text),
{
    match parsed {
        Some(m) => Inbound::Chat(m),
        None => Inbound::Pipe(text),
    }
}

/// Lowercase hexadecimal digit for a value below 16.
pub open spec fn hex_digit(n: nat) -> u8 {
    if n < 10 {
        (48 + n) as u8
    } else {
        (87 + n) as u8
    }
}

/// JSON escape of one byte of UTF-8 text: quote and backslash get a
/// backslash escape, the control bytes their short or `\u00xy` form,
/// everything else (including all non-ASCII continuation bytes) passes
/// through unchanged.
pub open spec fn escape_byte(b: u8) -> Seq<u8> {
    if b == 34 {
        seq![92u8, 34]
    } else if b == 92 {
        seq![92u8, 92]
    } else if b == 8 {
        seq![92u8, 98]
    } else if b == 9 {
        seq![92u8, 116]
    } else if b == 10 {
        seq![92u8, 110]
    } else if b == 12 {
        seq![92u8, 102]
    } else if b == 13 {
        seq![92u8, 114]
    } else if b < 32 {
        seq![92u8, 117, 48, 48, hex_digit((b / 16) as nat), hex_digit((b % 16) as nat)]
    } else {
        seq![b]
    }
}

/// JSON escape of a byte string, byte by byte.
pub open spec fn escape_bytes(s: Seq<u8>) -> Seq<u8>
    decreases s.len(),
{
    if s.len() == 0 {
        seq![]
    } else {
        escape_bytes(s.drop_last()) + escape_byte(s.last())
    }
}

/// Decimal digits of `n`, most significant first, as ASCII bytes.
pub open spec fn dec_digits(n: nat) -> Seq<u8>
    decreases n,
{
    if n < 10 {
        seq![(48 + n) as u8]
    } else {
        dec_digits(n / 10) + seq![(48 + n % 10) as u8]
    }
}

/// The bytes of `{"sender":"`.
pub open spec fn json_head() -> Seq<u8> {
    seq![123u8, 34, 115, 101, 110, 100, 101, 114, 34, 58, 34]
}

/// The bytes of `","content":"`.
pub open spec fn json_mid() -> Seq<u8> {
    seq![34u8, 44, 34, 99, 111, 110, 116, 101, 110, 116, 34, 58, 34]
}

/// The bytes of `","timestamp":`.
pub open spec fn json_tail() -> Seq<u8> {
    seq![34u8, 44, 34, 116, 105, 109, 101, 115, 116, 97, 109, 112, 34, 58]
}

/// The serialized form of a chat message: a JSON object with the fields
/// sender, content and timestamp, in that order, no added whitespace.
pub open spec fn chat_json(sender: Seq<u8>, content: Seq<u8>, timestamp: nat) -> Seq<u8> {
    json_head() + escape_bytes(sender) + json_mid() + escape_bytes(content) + json_tail()
        + dec_digits(timestamp) + seq![125u8]
}

/// The bytes of `pipe:`.
pub open spec fn pipe_prefix() -> Seq<u8> {
    seq![112u8, 105, 112, 101, 58]
}

/// The wire form of a raw pipe line: the prefix `pipe:` then the line,
/// with no further escaping.
pub open spec fn pipe_frame(line: Seq<u8>) -> Seq<u8> {
    pipe_prefix() + line
}

fn push_escape_byte(out: &mut Vec<u8>, b: u8)
    ensures
        final(out)@ == old(out)@ + escape_byte(b),
{
    if b == 34 {
        out.push(92);
        out.push(34);
        proof {
            assert(out@ =~= old(out)@ + escape_byte(b));
        }
    } else if b == 92 {
        out.push(92);
        out.push(92);
        proof {
            assert(out@ =~= old(out)@ + escape_byte(b));
        }
    } else if b == 8 {
        out.push(92);
        out.push(98);
        proof {
            assert(out@ =~= old(out)@ + escape_byte(b));
        }
    } else if b == 9 {
        out.push(92);
        out.push(116);
        proof {
            assert(out@ =~= old(out)@ + escape_byte(b));
        }
    } else if b == 10 {
        out.push(92);
        out.push(110);
        proof {
            assert(out@ =~= old(out)@ + escape_byte(b));
        }
    } else if b == 12 {
        out.push(92);
        out.push(102);
        proof {
            assert(out@ =~= old(out)@ + escape_byte(b));
        }
    } else if b == 13 {
        out.push(92);
        out.push(114);
        proof {
            assert(out@ =~= old(out)@ + escape_byte(b));
        }
    } else if b < 32 {
        out.push(92);
        out.push(117);
        out.push(48);
        out.push(48);
        let hi: u8 = b / 16;
        let lo: u8 = b % 16;
        out.push(if hi < 10 { 48 + hi } else { 87 + hi });
        out.push(if lo < 10 { 48 + lo } else { 87 + lo });
        proof {
            assert(out@ =~= old(out)@ + escape_byte(b));
        }
    } else {
        out.push(b);
        proof {
            assert(out@ =~= old(out)@ + escape_byte(b));
        }
    }
}

fn push_escaped(out: &mut Vec<u8>, s: &Vec<u8>)
    ensures
        final(out)@ == old(out)@ + escape_bytes(s@),
{
    let mut i: usize = 0;
    while i < s.len()
        invariant
            i <= s.len(),
            out@ == old(out)@ + escape_bytes(s@.take(i as int)),
        decreases s.len() - i,
    {
        push_escape_byte(out, s[i]);
        proof {
            assert(s@.take(i + 1).drop_last() =~= s@.take(i as int));
            assert(s@.take(i + 1).last() == s@[i as int]);
        }
        i += 1;
    }
    proof {
        assert(s@.take(s@.len() as int) =~= s@);
    }
}

fn push_dec_digits(out: &mut Vec<u8>, n: u64)
    ensures
        final(out)@ == old(out)@ + dec_digits(n as nat),
    decreases n,
{
    if n < 10 {
        out.push(48 + n as u8);
        proof {
            assert(out@ =~= old(out)@ + dec_digits(n as nat));
        }
    } else {
        push_dec_digits(out, n / 10);
        let d: u64 = n % 10;
        out.push(48 + d as u8);
        proof {
            assert(out@ =~= old(out)@ + dec_digits(n as nat));
        }
    }
}

/// Serializes a chat message to its exact wire form.
pub fn chat_to_json(m: &ChatMessage) -> (r: Vec<u8>)
    ensures
        r@ == chat_json(m.sender@, m.content@, m.timestamp as nat),
{
    let mut out: Vec<u8> = Vec::new();
    out.push(123);
    out.push(34);
    out.push(115);
    out.push(101);
    out.push(110);
    out.push(100);
    out.push(101);
    out.push(114);
    out.push(34);
    out.push(58);
    out.push(34);
    proof {
        assert(out@ =~= json_head());
    }
    push_escaped(&mut out, &m.sender);
    out.push(34);
    out.push(44);
    out.push(34);
    out.push(99);
    out.push(111);
    out.push(110);
    out.push(116);
    out.push(101);
    out.push(110);
    out.push(116);
    out.push(34);
    out.push(58);
    out.push(34);
    proof {
        assert(out@ =~= json_head() + escape_bytes(m.sender@) + json_mid());
    }
    push_escaped(&mut out, &m.content);
    out.push(34);
    out.push(44);
    out.push(34);
    out.push(116);
    out.push(105);
    out.push(109);
    out.push(101);
    out.push(115);
    out.push(116);
    out.push(97);
    out.push(109);
    out.push(112);
    out.push(34);
    out.push(58);
    proof {
        assert(out@ =~= json_head() + escape_bytes(m.sender@) + json_mid()
            + escape_bytes(m.content@) + json_tail());
    }
    push_dec_digits(&mut out, m.timestamp);
    out.push(125);
    proof {
        assert(out@ =~= chat_json(m.sender@, m.content@, m.timestamp as nat));
    }
    out
}

/// Frames a raw pipe line for the wire: `pipe:` then the line verbatim.
pub fn frame_pipe(line: &Vec<u8>) -> (r: Vec<u8>)
    ensures
        r@ == pipe_frame(line@),
{
    let mut out: Vec<u8> = Vec::new();
    out.push(112);
    out.push(105);
    out.push(112);
    out.push(101);
    out.push(58);
    proof {
        assert(out@ =~= pipe_prefix());
    }
    push_all(&mut out, line);
    out
}

/// The two wire forms never collide: serialized chat begins with `{`,
/// a pipe frame with `p`, so a client can tell them apart by the first
/// byte alone, and a chat frame carries no pipe prefix.
pub proof fn lemma_frames_distinguishable(
    sender: Seq<u8>,
    content: Seq<u8>,
    timestamp: nat,
    line: Seq<u8>,
)
    ensures
        chat_json(sender, content, timestamp)[0] == 123,
        pipe_frame(line)[0] == 112,
        chat_json(sender, content, timestamp) != pipe_frame(line),
{
    assert(chat_json(sender, content, timestamp)[0] == 123);
    assert(pipe_frame(line)[0] == 112);
}

} // verus!
