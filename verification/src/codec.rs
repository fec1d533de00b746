use vstd::prelude::*;
use vstd::bytes::{
    lemma_auto_spec_u64_to_from_le_bytes, spec_u64_from_le_bytes, spec_u64_to_le_bytes,
    u64_from_le_bytes, u64_to_le_bytes,
};
use vstd::slice::{slice_subrange, slice_to_vec};
use vstd::utf8::{decode_utf8, encode_utf8, valid_utf8};

use crate::messages::{Message, MessageView};

verus! {

broadcast use vstd::utf8::group_utf8_lib;

/// The tag byte opening the encoding of each message kind.
pub const TAG_PING: u8 = 1;

pub const TAG_PONG: u8 = 2;

pub const TAG_CONSUME: u8 = 3;

pub const TAG_PUBLISH: u8 = 4;

pub const TAG_DELIVER: u8 = 5;

/// The encoding of one string field: the byte length of its UTF-8 form,
/// then those bytes.
pub open spec fn spec_string_field(s: Seq<char>) -> Seq<u8> {
    spec_u64_to_le_bytes(encode_utf8(s).len() as u64) + encode_utf8(s)
}

/// The byte encoding of one protocol message: a tag byte naming the kind,
/// then the kind's string fields, each length-prefixed.
pub open spec fn spec_encode(m: MessageView) -> Seq<u8> {
    match m {
        MessageView::Ping => seq![TAG_PING],
        MessageView::Pong => seq![TAG_PONG],
        MessageView::Consume { topic } => seq![TAG_CONSUME] + spec_string_field(topic),
        MessageView::Publish { topic, message } => seq![TAG_PUBLISH] + spec_string_field(topic)
            + spec_string_field(message),
        MessageView::Deliver { topic, message } => seq![TAG_DELIVER] + spec_string_field(topic)
            + spec_string_field(message),
    }
}

/// Take one length-prefixed string field off the front of `b`: the decoded
/// field and the remainder, or nothing when `b` is too short or the field is
/// not valid UTF-8.
pub open spec fn spec_take_field(b: Seq<u8>) -> Option<(Seq<char>, Seq<u8>)> {
    if b.len() < 8 {
        None
    } else {
        let n = spec_u64_from_le_bytes(b.subrange(0, 8)) as int;
        if b.len() - 8 < n {
            None
        } else {
            let field = b.subrange(8, 8 + n);
            if valid_utf8(field) {
                Some((decode_utf8(field), b.subrange(8 + n, b.len() as int)))
            } else {
                None
            }
        }
    }
}

/// The decoding of one message payload, exactly inverse to [`spec_encode`]:
/// the message, or nothing when the bytes are not the encoding of one whole
/// message.
pub open spec fn spec_decode(b: Seq<u8>) -> Option<MessageView> {
    if b.len() == 0 {
        None
    } else {
        let rest = b.subrange(1, b.len() as int);
        if b[0] == TAG_PING {
            if rest.len() == 0 {
                Some(MessageView::Ping)
            } else {
                None
            }
        } else if b[0] == TAG_PONG {
            if rest.len() == 0 {
                Some(MessageView::Pong)
            } else {
                None
            }
        } else if b[0] == TAG_CONSUME {
            match spec_take_field(rest) {
                Some((topic, rest2)) => if rest2.len() == 0 {
                    Some(MessageView::Consume { topic })
                } else {
                    None
                },
                None => None,
            }
        } else if b[0] == TAG_PUBLISH {
            match spec_take_field(rest) {
                Some((topic, rest2)) => match spec_take_field(rest2) {
                    Some((message, rest3)) => if rest3.len() == 0 {
                        Some(MessageView::Publish { topic, message })
                    } else {
                        None
                    },
                    None => None,
                },
                None => None,
            }
        } else if b[0] == TAG_DELIVER {
            match spec_take_field(rest) {
                Some((topic, rest2)) => match spec_take_field(rest2) {
                    Some((message, rest3)) => if rest3.len() == 0 {
                        Some(MessageView::Deliver { topic, message })
                    } else {
                        None
                    },
                    None => None,
                },
                None => None,
            }
        } else {
            None
        }
    }
}

/// Every string field's UTF-8 form fits the 8-byte length prefix. Holds of
/// every message an executable string can make.
pub open spec fn spec_wire_sized(m: MessageView) -> bool {
    match m {
        MessageView::Ping => true,
        MessageView::Pong => true,
        MessageView::Consume { topic } => encode_utf8(topic).len() <= u64::MAX,
        MessageView::Publish { topic, message } => encode_utf8(topic).len() <= u64::MAX
            && encode_utf8(message).len() <= u64::MAX,
        MessageView::Deliver { topic, message } => encode_utf8(topic).len() <= u64::MAX
            && encode_utf8(message).len() <= u64::MAX,
    }
}

/// Taking a field off an encoded field followed by anything gives back the
/// field's characters and the rest, untouched.
proof fn lemma_take_encoded_field(s: Seq<char>, tail: Seq<u8>)
    requires
        encode_utf8(s).len() <= u64::MAX,
    ensures
        spec_take_field(spec_string_field(s) + tail) == Some((s, tail)),
{
    lemma_auto_spec_u64_to_from_le_bytes();
    let e = encode_utf8(s);
    let b = spec_string_field(s) + tail;
    assert(b.subrange(0, 8) =~= spec_u64_to_le_bytes(e.len() as u64));
    let n = spec_u64_from_le_bytes(b.subrange(0, 8)) as int;
    assert(n == e.len());
    assert(b.subrange(8, 8 + n) =~= e);
    assert(b.subrange(8 + n, b.len() as int) =~= tail);
}

/// Law: the codec round-trips. Decoding the encoding of any message whose
/// fields fit the wire gives back exactly that message, its topic and
/// payload unchanged.
pub proof fn lemma_encode_decode(m: MessageView)
    requires
        spec_wire_sized(m),
    ensures
        spec_decode(spec_encode(m)) == Some(m),
{
    let b = spec_encode(m);
    match m {
        MessageView::Ping => {
            assert(b.subrange(1, b.len() as int).len() == 0);
        },
        MessageView::Pong => {
            assert(b.subrange(1, b.len() as int).len() == 0);
        },
        MessageView::Consume { topic } => {
            assert(b[0] == TAG_CONSUME);
            assert(b.subrange(1, b.len() as int) =~= spec_string_field(topic)
                + Seq::<u8>::empty());
            lemma_take_encoded_field(topic, Seq::<u8>::empty());
        },
        MessageView::Publish { topic, message } => {
            assert(b[0] == TAG_PUBLISH);
            assert(b.subrange(1, b.len() as int) =~= spec_string_field(topic) + (
            spec_string_field(message) + Seq::<u8>::empty()));
            lemma_take_encoded_field(topic, spec_string_field(message) + Seq::<u8>::empty());
            lemma_take_encoded_field(message, Seq::<u8>::empty());
        },
        MessageView::Deliver { topic, message } => {
            assert(b[0] == TAG_DELIVER);
            assert(b.subrange(1, b.len() as int) =~= spec_string_field(topic) + (
            spec_string_field(message) + Seq::<u8>::empty()));
            lemma_take_encoded_field(topic, spec_string_field(message) + Seq::<u8>::empty());
            lemma_take_encoded_field(message, Seq::<u8>::empty());
        },
    }
}

/// A taken field came from exactly its own encoding: whenever a field comes
/// off the front of `b`, re-encoding it and putting the remainder back
/// gives `b` again.
proof fn lemma_field_canonical(b: Seq<u8>)
    requires
        spec_take_field(b) is Some,
    ensures
        ({
            let (s, rest) = spec_take_field(b).unwrap();
            spec_string_field(s) + rest == b
        }),
{
    lemma_auto_spec_u64_to_from_le_bytes();
    let n = spec_u64_from_le_bytes(b.subrange(0, 8)) as int;
    let field = b.subrange(8, 8 + n);
    let (s, rest) = spec_take_field(b).unwrap();
    assert(encode_utf8(s) == field);
    assert(spec_u64_to_le_bytes(field.len() as u64) =~= b.subrange(0, 8));
    assert(spec_string_field(s) + rest =~= b);
}

/// Law: the decoder accepts only canonical bytes. Whatever byte sequence
/// decodes at all re-encodes to exactly that sequence, so each message has
/// one wire form and the decoder admits no other shape of it.
pub proof fn lemma_decode_encode(b: Seq<u8>)
    requires
        spec_decode(b) is Some,
    ensures
        spec_encode(spec_decode(b).unwrap()) == b,
{
    let rest = b.subrange(1, b.len() as int);
    if b[0] == TAG_PING || b[0] == TAG_PONG {
        assert(b =~= seq![b[0]]);
    } else if b[0] == TAG_CONSUME {
        let (topic, rest2) = spec_take_field(rest).unwrap();
        lemma_field_canonical(rest);
        assert(rest2.len() == 0);
        assert(spec_string_field(topic) =~= spec_string_field(topic) + rest2);
        assert(seq![TAG_CONSUME] + spec_string_field(topic) =~= b);
    } else {
        let (topic, rest2) = spec_take_field(rest).unwrap();
        let (message, rest3) = spec_take_field(rest2).unwrap();
        lemma_field_canonical(rest);
        lemma_field_canonical(rest2);
        assert(rest3.len() == 0);
        assert(spec_string_field(message) =~= spec_string_field(message) + rest3);
        assert(rest == spec_string_field(topic) + spec_string_field(message));
        assert(b =~= seq![b[0]] + rest);
        assert(seq![b[0]] + (spec_string_field(topic) + spec_string_field(message)) =~= seq![
            b[0],
        ] + spec_string_field(topic) + spec_string_field(message));
    }
}

/// Append one length-prefixed string field to `out`.
fn push_string_field(out: &mut Vec<u8>, s: &String)
    ensures
        final(out)@ == old(out)@ + spec_string_field(s@),
        encode_utf8(s@).len() <= u64::MAX,
{
    let bytes: &[u8] = s.as_str().as_bytes();
    let n: usize = bytes.len();
    let len_bytes: Vec<u8> = u64_to_le_bytes(n as u64);
    out.extend_from_slice(len_bytes.as_slice());
    out.extend_from_slice(bytes);
    proof {
        assert(out@ =~= old(out)@ + spec_string_field(s@));
    }
}

/// Encode one message as its payload bytes, exactly [`spec_encode`] of its
/// value.
pub fn encode_message(m: &Message) -> (r: Vec<u8>)
    ensures
        r@ == spec_encode(m@),
        spec_wire_sized(m@),
{
    let mut out: Vec<u8> = Vec::new();
    match m {
        Message::Ping => {
            out.push(TAG_PING);
        },
        Message::Pong => {
            out.push(TAG_PONG);
        },
        Message::Consume { topic } => {
            out.push(TAG_CONSUME);
            push_string_field(&mut out, topic);
        },
        Message::Publish { topic, message } => {
            out.push(TAG_PUBLISH);
            push_string_field(&mut out, topic);
            push_string_field(&mut out, message);
        },
        Message::Deliver { topic, message } => {
            out.push(TAG_DELIVER);
            push_string_field(&mut out, topic);
            push_string_field(&mut out, message);
        },
    }
    proof {
        assert(out@ =~= spec_encode(m@));
    }
    out
}

/// Relies on `String::from_utf8`: it succeeds exactly on valid UTF-8 and
/// returns the character sequence that the bytes encode.
#[verifier::external_body]
fn string_from_utf8(v: Vec<u8>) -> (r: Option<String>)
    ensures
        r is Some <==> valid_utf8(v@),
        r matches Some(s) ==> s@ == decode_utf8(v@),
{
    String::from_utf8(v).ok()
}

/// Take one length-prefixed string field out of `bytes`, starting at
/// `start`: the field and the position after it, as [`spec_take_field`] on
/// the suffix.
fn take_string_field(bytes: &Vec<u8>, start: usize) -> (r: Option<(String, usize)>)
    requires
        start <= bytes@.len(),
    ensures
        match r {
            Some(p) => start <= p.1 <= bytes@.len() && spec_take_field(
                bytes@.subrange(start as int, bytes@.len() as int),
            ) == Some((p.0@, bytes@.subrange(p.1 as int, bytes@.len() as int))),
            None => spec_take_field(bytes@.subrange(start as int, bytes@.len() as int)) is None,
        },
{
    let ghost suffix = bytes@.subrange(start as int, bytes@.len() as int);
    let len = bytes.len();
    if len - start < 8 {
        return None;
    }
    let header: &[u8] = slice_subrange(bytes.as_slice(), start, start + 8);
    proof {
        assert(header@ =~= suffix.subrange(0, 8));
    }
    let n64: u64 = u64_from_le_bytes(header);
    let rem: usize = len - (start + 8);
    if n64 > rem as u64 {
        proof {
            assert(suffix.len() - 8 < spec_u64_from_le_bytes(suffix.subrange(0, 8)) as int);
        }
        return None;
    }
    let n: usize = n64 as usize;
    let field_slice: &[u8] = slice_subrange(bytes.as_slice(), start + 8, start + 8 + n);
    proof {
        assert(field_slice@ =~= suffix.subrange(8, 8 + n64 as int));
    }
    let field: Vec<u8> = slice_to_vec(field_slice);
    match string_from_utf8(field) {
        Some(s) => {
            let end = start + 8 + n;
            proof {
                assert(bytes@.subrange(end as int, bytes@.len() as int) =~= suffix.subrange(
                    8 + n64 as int,
                    suffix.len() as int,
                ));
            }
            Some((s, end))
        },
        None => None,
    }
}

/// Decode one message payload, exactly [`spec_decode`] of the bytes: the
/// message, or nothing when the bytes are not the encoding of one whole
/// message.
pub fn decode_message(bytes: &Vec<u8>) -> (r: Option<Message>)
    ensures
        match r {
            Some(m) => spec_decode(bytes@) == Some(m@),
            None => spec_decode(bytes@) is None,
        },
{
    if bytes.len() == 0 {
        return None;
    }
    let ghost rest = bytes@.subrange(1, bytes@.len() as int);
    let tag = bytes[0];
    if tag == TAG_PING {
        if bytes.len() == 1 {
            Some(Message::Ping)
        } else {
            None
        }
    } else if tag == TAG_PONG {
        if bytes.len() == 1 {
            Some(Message::Pong)
        } else {
            None
        }
    } else if tag == TAG_CONSUME {
        match take_string_field(bytes, 1) {
            Some((topic, end)) => {
                proof {
                    assert(bytes@.subrange(1int, bytes@.len() as int) == rest);
                }
                if end == bytes.len() {
                    proof {
                        assert(bytes@.subrange(end as int, bytes@.len() as int).len() == 0);
                    }
                    Some(Message::Consume { topic })
                } else {
                    None
                }
            },
            None => None,
        }
    } else if tag == TAG_PUBLISH {
        match take_string_field(bytes, 1) {
            Some((topic, mid)) => match take_string_field(bytes, mid) {
                Some((message, end)) => {
                    if end == bytes.len() {
                        Some(Message::Publish { topic, message })
                    } else {
                        None
                    }
                },
                None => None,
            },
            None => None,
        }
    } else if tag == TAG_DELIVER {
        match take_string_field(bytes, 1) {
            Some((topic, mid)) => match take_string_field(bytes, mid) {
                Some((message, end)) => {
                    if end == bytes.len() {
                        Some(Message::Deliver { topic, message })
                    } else {
                        None
                    }
                },
                None => None,
            },
            None => None,
        }
    } else {
        None
    }
}

/// The full wire frame of one message: the payload's byte length, then the
/// payload.
pub open spec fn spec_frame(m: MessageView) -> Seq<u8> {
    spec_u64_to_le_bytes(spec_encode(m).len() as u64) + spec_encode(m)
}

/// Law: a frame is its header and its payload. The first eight bytes of
/// [`spec_frame`] carry exactly the payload's length, and the rest is
/// exactly [`spec_encode`] of the message — so a reader that takes the
/// length, then that many bytes, has one whole message and nothing else.
pub proof fn lemma_frame_splits(m: MessageView)
    requires
        spec_encode(m).len() <= u64::MAX,
    ensures
        spec_frame(m).len() == 8 + spec_encode(m).len(),
        spec_u64_from_le_bytes(spec_frame(m).subrange(0, 8)) == spec_encode(m).len(),
        spec_frame(m).subrange(8, spec_frame(m).len() as int) == spec_encode(m),
{
    lemma_auto_spec_u64_to_from_le_bytes();
    let b = spec_frame(m);
    assert(b.subrange(0, 8) =~= spec_u64_to_le_bytes(spec_encode(m).len() as u64));
    assert(b.subrange(8, b.len() as int) =~= spec_encode(m));
}

/// Encode one message with its length prefix, ready to write to a peer.
pub fn frame_message(m: &Message) -> (r: Vec<u8>)
    ensures
        r@ == spec_frame(m@),
{
    let payload = encode_message(m);
    let mut out: Vec<u8> = u64_to_le_bytes(payload.len() as u64);
    out.extend_from_slice(payload.as_slice());
    proof {
        assert(out@ =~= spec_frame(m@));
    }
    out
}

/// Read the payload length out of an 8-byte frame header; anything of
/// another length is refused.
pub fn frame_payload_len(header: &Vec<u8>) -> (r: Option<u64>)
    ensures
        header@.len() == 8 ==> r == Some(spec_u64_from_le_bytes(header@)),
        header@.len() != 8 ==> r is None,
{
    if header.len() == 8 {
        Some(u64_from_le_bytes(header.as_slice()))
    } else {
        None
    }
}

} // verus!
