//! The wire encoding of link messages.
//!
//! A message is a tagged value: a command with its identifier, an
//! acknowledgement, or a completion notice.  On the wire the tag and the
//! identifier use a compact little-endian variable-length integer encoding;
//! the two wheel speeds of a `SetSpeed` command are fixed-width two's
//! complement.  The encoded message is followed by the eight-byte
//! Reed-Solomon code of the ECC layer; decoding corrects the block first
//! and then parses the payload.

use vstd::prelude::*;

use crate::commands::{Command, SetSpeedParams};
use crate::ecc::{
    byte_diff_count, lemma_byte_diff_count_self, rs_correct, rs_correct_res, rs_ecc_of, rs_encode,
    ECC_LEN,
};

verus! {

/// Longest frame body the link accepts, encoded payload and code together.
pub const MAX_MESSAGE_LEN: usize = 40;

pub type MessageBuffer = Vec<u8>;

pub type IdType = u32;

/// A message of the link: a command to run, the acknowledgement that one
/// started, or the notice that one finished.
#[derive(Clone, Copy, PartialEq, Eq, Structural, Debug)]
pub enum Message {
    Command(IdType, Command),
    Ack(IdType),
    Done(IdType),
}

/// Serialization can only fail by not fitting the frame; no message of
/// this crate's `Message` type does, so the error never occurs.
#[derive(Clone, Copy, PartialEq, Eq, Structural, Debug)]
pub enum MessageSerializeErorr {
    Encode,
}

/// Why an incoming frame was dropped: its code could not correct it, or
/// its corrected payload does not parse.
#[derive(Clone, Copy, PartialEq, Eq, Structural, Debug)]
pub enum MessageDeserializeErorr {
    Ecc,
    Decode,
}

/// The variable-length encoding of an unsigned 32-bit value: one byte
/// below 251, marker 251 and two little-endian bytes below 2^16, marker
/// 252 and four little-endian bytes otherwise.
pub open spec fn varint(v: u32) -> Seq<u8> {
    if v < 251 {
        seq![v as u8]
    } else if v < 0x10000 {
        seq![251u8, (v & 0xff) as u8, ((v >> 8) & 0xff) as u8]
    } else {
        seq![
            252u8,
            (v & 0xff) as u8,
            ((v >> 8) & 0xff) as u8,
            ((v >> 16) & 0xff) as u8,
            ((v >> 24) & 0xff) as u8,
        ]
    }
}

/// The fixed-width little-endian two's-complement encoding of a signed
/// 32-bit value.
pub open spec fn le_i32(v: i32) -> Seq<u8> {
    let u = v as u32;
    seq![(u & 0xff) as u8, ((u >> 8) & 0xff) as u8, ((u >> 16) & 0xff) as u8, ((u >> 24) & 0xff) as u8]
}

/// The encoded bytes of a command: its variant index as a varint, then
/// its fields.
pub open spec fn command_bytes(c: Command) -> Seq<u8> {
    match c {
        Command::Stop => varint(0),
        Command::SetSpeed(p) => varint(1) + le_i32(p.left) + le_i32(p.right),
        Command::OpenGripper => varint(2),
        Command::CloseGripper => varint(3),
        Command::LiftGripper => varint(4),
        Command::LowerGripper => varint(5),
    }
}

/// The encoded bytes of a message: its variant index as a varint, the
/// identifier as a varint, and for a command its encoded body.
pub open spec fn message_bytes(m: Message) -> Seq<u8> {
    match m {
        Message::Command(id, c) => varint(0) + varint(id) + command_bytes(c),
        Message::Ack(id) => varint(1) + varint(id),
        Message::Done(id) => varint(2) + varint(id),
    }
}

/// A whole frame body: the encoded message followed by its eight-byte
/// Reed-Solomon code.
pub open spec fn encoded_block(m: Message) -> Seq<u8> {
    message_bytes(m) + rs_ecc_of(message_bytes(m))
}

/// Reads one varint at `pos`: the value and the position after it.
pub open spec fn parse_varint(s: Seq<u8>, pos: int) -> Option<(u32, int)> {
    if pos < 0 || pos >= s.len() {
        None
    } else {
        let b = s[pos];
        if b < 251 {
            Some((b as u32, pos + 1))
        } else if b == 251 {
            if pos + 3 <= s.len() {
                let v = (s[pos + 1] as u32) | (s[pos + 2] as u32) << 8;
                Some((v, pos + 3))
            } else {
                None
            }
        } else if b == 252 {
            if pos + 5 <= s.len() {
                let v = (s[pos + 1] as u32) | (s[pos + 2] as u32) << 8
                    | (s[pos + 3] as u32) << 16 | (s[pos + 4] as u32) << 24;
                Some((v, pos + 5))
            } else {
                None
            }
        } else {
            None
        }
    }
}

/// Reads one fixed-width signed 32-bit value at `pos`.
pub open spec fn parse_i32(s: Seq<u8>, pos: int) -> Option<(i32, int)> {
    if 0 <= pos && pos + 4 <= s.len() {
        let u = (s[pos] as u32) | (s[pos + 1] as u32) << 8
            | (s[pos + 2] as u32) << 16 | (s[pos + 3] as u32) << 24;
        Some((u as i32, pos + 4))
    } else {
        None
    }
}

/// Reads one encoded command at `pos`.
pub open spec fn parse_command(s: Seq<u8>, pos: int) -> Option<(Command, int)> {
    match parse_varint(s, pos) {
        Option::None => None,
        Option::Some((tag, p)) => {
            if tag == 0 {
                Some((Command::Stop, p))
            } else if tag == 1 {
                match parse_i32(s, p) {
                    Option::None => None,
                    Option::Some((left, p2)) => match parse_i32(s, p2) {
                        Option::None => None,
                        Option::Some((right, p3)) => Some(
                            (Command::SetSpeed(SetSpeedParams { left, right }), p3),
                        ),
                    },
                }
            } else if tag == 2 {
                Some((Command::OpenGripper, p))
            } else if tag == 3 {
                Some((Command::CloseGripper, p))
            } else if tag == 4 {
                Some((Command::LiftGripper, p))
            } else if tag == 5 {
                Some((Command::LowerGripper, p))
            } else {
                None
            }
        },
    }
}

/// What a corrected payload parses to: the message, or nothing when the
/// tag is unknown or the payload is truncated.  Bytes after a complete
/// message are ignored.
pub open spec fn decode_message(s: Seq<u8>) -> Option<Message> {
    match parse_varint(s, 0) {
        Option::None => None,
        Option::Some((tag, p)) => {
            if tag == 0 {
                match parse_varint(s, p) {
                    Option::None => None,
                    Option::Some((id, p2)) => match parse_command(s, p2) {
                        Option::None => None,
                        Option::Some((c, _)) => Some(Message::Command(id, c)),
                    },
                }
            } else if tag == 1 {
                match parse_varint(s, p) {
                    Option::None => None,
                    Option::Some((id, _)) => Some(Message::Ack(id)),
                }
            } else if tag == 2 {
                match parse_varint(s, p) {
                    Option::None => None,
                    Option::Some((id, _)) => Some(Message::Done(id)),
                }
            } else {
                None
            }
        },
    }
}

/// What `deserialize` returns for a corrected payload.
pub open spec fn decoded_of(d: Seq<u8>) -> Result<Message, MessageDeserializeErorr> {
    match decode_message(d) {
        Option::Some(m) => Ok(m),
        Option::None => Err(MessageDeserializeErorr::Decode),
    }
}

/// What `deserialize` returns for a whole frame body.
pub open spec fn deserialize_spec(s: Seq<u8>) -> Result<Message, MessageDeserializeErorr> {
    if s.len() < ECC_LEN || s.len() > 255 {
        Err(MessageDeserializeErorr::Ecc)
    } else {
        match rs_correct_res(s) {
            Option::None => Err(MessageDeserializeErorr::Ecc),
            Option::Some(d) => decoded_of(d),
        }
    }
}

/// No encoded message is longer than 15 bytes: one tag byte, at most five
/// identifier bytes, and at most nine body bytes.
pub proof fn lemma_message_bytes_len(m: Message)
    ensures
        1 <= message_bytes(m).len() <= 15,
{
}

/// Parsing a varint back out of any byte string that carries one yields
/// the encoded value.
pub proof fn lemma_parse_varint_inverts(s: Seq<u8>, pos: int, v: u32)
    requires
        0 <= pos,
        pos + varint(v).len() <= s.len(),
        s.subrange(pos, pos + varint(v).len() as int) == varint(v),
    ensures
        parse_varint(s, pos) == Some((v, pos + varint(v).len() as int)),
{
    let enc = varint(v);
    if v < 251 {
        assert(s[pos] == s.subrange(pos, pos + enc.len() as int)[0]);
    } else if v < 0x10000 {
        assert(s[pos] == s.subrange(pos, pos + enc.len() as int)[0]);
        assert(s[pos + 1] == s.subrange(pos, pos + enc.len() as int)[1]);
        assert(s[pos + 2] == s.subrange(pos, pos + enc.len() as int)[2]);
        assert(((v & 0xff) as u8 as u32) | (((v >> 8) & 0xff) as u8 as u32) << 8 == v)
            by (bit_vector)
            requires v < 0x10000u32;
    } else {
        assert(s[pos] == s.subrange(pos, pos + enc.len() as int)[0]);
        assert(s[pos + 1] == s.subrange(pos, pos + enc.len() as int)[1]);
        assert(s[pos + 2] == s.subrange(pos, pos + enc.len() as int)[2]);
        assert(s[pos + 3] == s.subrange(pos, pos + enc.len() as int)[3]);
        assert(s[pos + 4] == s.subrange(pos, pos + enc.len() as int)[4]);
        assert(((v & 0xff) as u8 as u32) | (((v >> 8) & 0xff) as u8 as u32) << 8
            | (((v >> 16) & 0xff) as u8 as u32) << 16
            | (((v >> 24) & 0xff) as u8 as u32) << 24 == v) by (bit_vector);
    }
}

/// Parsing a fixed-width signed value back out of any byte string that
/// carries one yields the encoded value.
pub proof fn lemma_parse_i32_inverts(s: Seq<u8>, pos: int, v: i32)
    requires
        0 <= pos,
        pos + 4 <= s.len(),
        s.subrange(pos, pos + 4) == le_i32(v),
    ensures
        parse_i32(s, pos) == Some((v, pos + 4)),
{
    let enc = le_i32(v);
    assert(s[pos] == s.subrange(pos, pos + 4)[0]);
    assert(s[pos + 1] == s.subrange(pos, pos + 4)[1]);
    assert(s[pos + 2] == s.subrange(pos, pos + 4)[2]);
    assert(s[pos + 3] == s.subrange(pos, pos + 4)[3]);
    let u = v as u32;
    assert(((u & 0xff) as u8 as u32) | (((u >> 8) & 0xff) as u8 as u32) << 8
        | (((u >> 16) & 0xff) as u8 as u32) << 16
        | (((u >> 24) & 0xff) as u8 as u32) << 24 == u) by (bit_vector);
    assert((v as u32) as i32 == v) by (bit_vector);
}

/// A subrange of an equal-to-`enc` window of `s` is the matching
/// subrange of `enc`.
proof fn lemma_subrange_split(s: Seq<u8>, pos: int, enc: Seq<u8>, a: int, b: int)
    requires
        0 <= pos,
        pos + enc.len() <= s.len(),
        s.subrange(pos, pos + enc.len() as int) == enc,
        0 <= a <= b <= enc.len(),
    ensures
        s.subrange(pos + a, pos + b) == enc.subrange(a, b),
{
    assert forall|k: int| 0 <= k < b - a
        implies #[trigger] s.subrange(pos + a, pos + b)[k] == enc.subrange(a, b)[k] by {
        assert(s.subrange(pos, pos + enc.len() as int)[a + k] == s[pos + (a + k)]);
        assert(s.subrange(pos + a, pos + b)[k] == s[pos + a + k]);
    }
    assert(s.subrange(pos + a, pos + b) =~= enc.subrange(a, b));
}

/// Parsing a command back out of any byte string that carries one yields
/// the encoded command.
pub proof fn lemma_parse_command_inverts(s: Seq<u8>, pos: int, c: Command)
    requires
        0 <= pos,
        pos + command_bytes(c).len() <= s.len(),
        s.subrange(pos, pos + command_bytes(c).len() as int) == command_bytes(c),
    ensures
        parse_command(s, pos) == Some((c, pos + command_bytes(c).len() as int)),
{
    let enc = command_bytes(c);
    match c {
        Command::SetSpeed(p) => {
            lemma_subrange_split(s, pos, enc, 0, 1);
            assert(enc.subrange(0, 1) =~= varint(1));
            lemma_parse_varint_inverts(s, pos, 1);
            lemma_subrange_split(s, pos, enc, 1, 5);
            assert(enc.subrange(1, 5) =~= le_i32(p.left));
            lemma_parse_i32_inverts(s, pos + 1, p.left);
            lemma_subrange_split(s, pos, enc, 5, 9);
            assert(enc.subrange(5, 9) =~= le_i32(p.right));
            lemma_parse_i32_inverts(s, pos + 5, p.right);
        },
        Command::Stop => {
            assert(s.subrange(pos, pos + 1) =~= varint(0));
            lemma_parse_varint_inverts(s, pos, 0);
        },
        Command::OpenGripper => {
            assert(s.subrange(pos, pos + 1) =~= varint(2));
            lemma_parse_varint_inverts(s, pos, 2);
        },
        Command::CloseGripper => {
            assert(s.subrange(pos, pos + 1) =~= varint(3));
            lemma_parse_varint_inverts(s, pos, 3);
        },
        Command::LiftGripper => {
            assert(s.subrange(pos, pos + 1) =~= varint(4));
            lemma_parse_varint_inverts(s, pos, 4);
        },
        Command::LowerGripper => {
            assert(s.subrange(pos, pos + 1) =~= varint(5));
            lemma_parse_varint_inverts(s, pos, 5);
        },
    }
}

/// Round trip of the payload encoding: every encoded message parses back
/// to itself, also with trailing bytes after it.
pub proof fn lemma_decode_message_inverts(s: Seq<u8>, m: Message)
    requires
        message_bytes(m).len() <= s.len(),
        s.subrange(0, message_bytes(m).len() as int) == message_bytes(m),
    ensures
        decode_message(s) == Some(m),
{
    let enc = message_bytes(m);
    match m {
        Message::Command(id, c) => {
            let i = varint(id);
            let cb = command_bytes(c);
            lemma_subrange_split(s, 0, enc, 0, 1);
            assert(enc.subrange(0, 1) =~= varint(0));
            lemma_parse_varint_inverts(s, 0, 0);
            lemma_subrange_split(s, 0, enc, 1, 1 + i.len() as int);
            assert(enc.subrange(1, 1 + i.len() as int) =~= i);
            lemma_parse_varint_inverts(s, 1, id);
            lemma_subrange_split(s, 0, enc, 1 + i.len() as int,
                1 + i.len() as int + cb.len() as int);
            assert(enc.subrange(1 + i.len() as int, 1 + i.len() as int + cb.len() as int) =~= cb);
            lemma_parse_command_inverts(s, 1 + i.len() as int, c);
        },
        Message::Ack(id) => {
            let i = varint(id);
            lemma_subrange_split(s, 0, enc, 0, 1);
            assert(enc.subrange(0, 1) =~= varint(1));
            lemma_parse_varint_inverts(s, 0, 1);
            lemma_subrange_split(s, 0, enc, 1, 1 + i.len() as int);
            assert(enc.subrange(1, 1 + i.len() as int) =~= i);
            lemma_parse_varint_inverts(s, 1, id);
        },
        Message::Done(id) => {
            let i = varint(id);
            lemma_subrange_split(s, 0, enc, 0, 1);
            assert(enc.subrange(0, 1) =~= varint(2));
            lemma_parse_varint_inverts(s, 0, 2);
            lemma_subrange_split(s, 0, enc, 1, 1 + i.len() as int);
            assert(enc.subrange(1, 1 + i.len() as int) =~= i);
            lemma_parse_varint_inverts(s, 1, id);
        },
    }
}

/// Appends one varint.
fn push_varint(buf: &mut Vec<u8>, v: u32)
    ensures
        final(buf)@ == old(buf)@ + varint(v),
{
    if v < 251 {
        buf.push(v as u8);
        assert(buf@ =~= old(buf)@ + varint(v));
    } else if v < 0x10000 {
        buf.push(251);
        proof {
            assert((v & 0xff) < 0x100 && ((v >> 8) & 0xff) < 0x100) by (bit_vector);
        }
        buf.push((v & 0xff) as u8);
        buf.push(((v >> 8) & 0xff) as u8);
        assert(buf@ =~= old(buf)@ + varint(v));
    } else {
        buf.push(252);
        proof {
            assert((v & 0xff) < 0x100 && ((v >> 8) & 0xff) < 0x100
                && ((v >> 16) & 0xff) < 0x100 && ((v >> 24) & 0xff) < 0x100) by (bit_vector);
        }
        buf.push((v & 0xff) as u8);
        buf.push(((v >> 8) & 0xff) as u8);
        buf.push(((v >> 16) & 0xff) as u8);
        buf.push(((v >> 24) & 0xff) as u8);
        assert(buf@ =~= old(buf)@ + varint(v));
    }
}

/// Appends one fixed-width signed value.
fn push_i32(buf: &mut Vec<u8>, v: i32)
    ensures
        final(buf)@ == old(buf)@ + le_i32(v),
{
    let u: u32 = #[verifier::truncate] (v as u32);
    proof {
        assert((u & 0xff) < 0x100 && ((u >> 8) & 0xff) < 0x100
            && ((u >> 16) & 0xff) < 0x100 && ((u >> 24) & 0xff) < 0x100) by (bit_vector);
    }
    buf.push((u & 0xff) as u8);
    buf.push(((u >> 8) & 0xff) as u8);
    buf.push(((u >> 16) & 0xff) as u8);
    buf.push(((u >> 24) & 0xff) as u8);
    assert(buf@ =~= old(buf)@ + le_i32(v));
}

/// Appends one encoded command.
fn push_command(buf: &mut Vec<u8>, c: &Command)
    ensures
        final(buf)@ == old(buf)@ + command_bytes(*c),
{
    match c {
        Command::Stop => {
            push_varint(buf, 0);
        },
        Command::SetSpeed(p) => {
            push_varint(buf, 1);
            push_i32(buf, p.left);
            push_i32(buf, p.right);
            assert(buf@ =~= old(buf)@ + command_bytes(*c));
        },
        Command::OpenGripper => {
            push_varint(buf, 2);
        },
        Command::CloseGripper => {
            push_varint(buf, 3);
        },
        Command::LiftGripper => {
            push_varint(buf, 4);
        },
        Command::LowerGripper => {
            push_varint(buf, 5);
        },
    }
}

/// Reads one varint, as `parse_varint` says.
fn read_varint(s: &[u8], pos: usize) -> (r: Option<(u32, usize)>)
    ensures
        match r {
            Option::Some((v, p)) => parse_varint(s@, pos as int) == Some((v, p as int))
                && pos < p <= s@.len(),
            Option::None => parse_varint(s@, pos as int) is None,
        },
{
    if pos >= s.len() {
        return None;
    }
    let b = s[pos];
    if b < 251 {
        Some((b as u32, pos + 1))
    } else if b == 251 {
        if s.len() - pos >= 3 {
            let v: u32 = (s[pos + 1] as u32) | (s[pos + 2] as u32) << 8;
            Some((v, pos + 3))
        } else {
            None
        }
    } else if b == 252 {
        if s.len() - pos >= 5 {
            let v: u32 = (s[pos + 1] as u32) | (s[pos + 2] as u32) << 8
                | (s[pos + 3] as u32) << 16 | (s[pos + 4] as u32) << 24;
            Some((v, pos + 5))
        } else {
            None
        }
    } else {
        None
    }
}

/// Reads one fixed-width signed value, as `parse_i32` says.
fn read_i32(s: &[u8], pos: usize) -> (r: Option<(i32, usize)>)
    ensures
        match r {
            Option::Some((v, p)) => parse_i32(s@, pos as int) == Some((v, p as int))
                && pos < p <= s@.len(),
            Option::None => parse_i32(s@, pos as int) is None,
        },
{
    if pos <= s.len() && s.len() - pos >= 4 {
        let u: u32 = (s[pos] as u32) | (s[pos + 1] as u32) << 8
            | (s[pos + 2] as u32) << 16 | (s[pos + 3] as u32) << 24;
        let v: i32 = #[verifier::truncate] (u as i32);
        Some((v, pos + 4))
    } else {
        None
    }
}

/// Reads one command, as `parse_command` says.
fn read_command(s: &[u8], pos: usize) -> (r: Option<(Command, usize)>)
    requires
        pos <= s@.len(),
    ensures
        match r {
            Option::Some((c, p)) => parse_command(s@, pos as int) == Some((c, p as int))
                && p <= s@.len(),
            Option::None => parse_command(s@, pos as int) is None,
        },
{
    let (tag, p) = match read_varint(s, pos) {
        Option::Some(x) => x,
        Option::None => {
            return None;
        },
    };
    if tag == 0 {
        Some((Command::Stop, p))
    } else if tag == 1 {
        let (left, p2) = match read_i32(s, p) {
            Option::Some(x) => x,
            Option::None => {
                return None;
            },
        };
        let (right, p3) = match read_i32(s, p2) {
            Option::Some(x) => x,
            Option::None => {
                return None;
            },
        };
        Some((Command::SetSpeed(SetSpeedParams { left, right }), p3))
    } else if tag == 2 {
        Some((Command::OpenGripper, p))
    } else if tag == 3 {
        Some((Command::CloseGripper, p))
    } else if tag == 4 {
        Some((Command::LiftGripper, p))
    } else if tag == 5 {
        Some((Command::LowerGripper, p))
    } else {
        None
    }
}

/// Parses one corrected payload, as `decode_message` says.
fn read_message(s: &[u8]) -> (r: Option<Message>)
    ensures
        r == decode_message(s@),
{
    let (tag, p) = match read_varint(s, 0) {
        Option::Some(x) => x,
        Option::None => {
            return None;
        },
    };
    if tag == 0 {
        let (id, p2) = match read_varint(s, p) {
            Option::Some(x) => x,
            Option::None => {
                return None;
            },
        };
        match read_command(s, p2) {
            Option::Some((c, _)) => Some(Message::Command(id, c)),
            Option::None => None,
        }
    } else if tag == 1 {
        match read_varint(s, p) {
            Option::Some((id, _)) => Some(Message::Ack(id)),
            Option::None => None,
        }
    } else if tag == 2 {
        match read_varint(s, p) {
            Option::Some((id, _)) => Some(Message::Done(id)),
            Option::None => None,
        }
    } else {
        None
    }
}

/// The round-trip law, spelled out for callers: the block that
/// `serialize` hands back is within `deserialize`'s correction guarantee
/// of its own message — with no corruption at all — so feeding it, or any
/// copy with at most four bytes changed, to `deserialize` returns the
/// message itself.
pub proof fn lemma_serialized_block_corrigible(m: Message, block: Seq<u8>)
    requires
        block == encoded_block(m),
        ECC_LEN <= block.len() <= 255,
    ensures
        Message::corrigible_to(block, m),
{
    lemma_byte_diff_count_self(block);
}

impl Message {
    /// Encodes the message and appends its Reed-Solomon code.  Every
    /// message of this type fits the frame, so the result is always the
    /// full frame body.
    pub fn serialize(&self) -> (r: Result<MessageBuffer, MessageSerializeErorr>)
        ensures
            r matches Ok(b) && b@ == encoded_block(*self)
                && b@.len() == message_bytes(*self).len() + ECC_LEN
                && b@.len() <= MAX_MESSAGE_LEN,
    {
        proof {
            lemma_message_bytes_len(*self);
        }
        let mut payload: Vec<u8> = Vec::new();
        match self {
            Message::Command(id, c) => {
                push_varint(&mut payload, 0);
                push_varint(&mut payload, *id);
                push_command(&mut payload, c);
                assert(payload@ =~= message_bytes(*self));
            },
            Message::Ack(id) => {
                push_varint(&mut payload, 1);
                push_varint(&mut payload, *id);
                assert(payload@ =~= message_bytes(*self));
            },
            Message::Done(id) => {
                push_varint(&mut payload, 2);
                push_varint(&mut payload, *id);
                assert(payload@ =~= message_bytes(*self));
            },
        }
        let block = rs_encode(payload.as_slice());
        Ok(block)
    }

    /// Whether a block is close enough to the serialized form of `m` for
    /// correction to be owed: equally long, inside the frame bounds, and
    /// different in at most four bytes.
    pub open spec fn corrigible_to(s: Seq<u8>, m: Message) -> bool {
        &&& ECC_LEN <= s.len() <= 255
        &&& s.len() == encoded_block(m).len()
        &&& byte_diff_count(s, encoded_block(m)) <= ECC_LEN / 2
    }

    /// Corrects a frame body and parses the corrected payload.  The whole
    /// outcome is `deserialize_spec` of the input; moreover any block that
    /// differs in at most four bytes from a serialized message — the
    /// serialized message itself in particular — yields that message back.
    pub fn deserialize(buff: &[u8]) -> (r: Result<Self, MessageDeserializeErorr>)
        ensures
            r == deserialize_spec(buff@),
            forall|m: Message| #[trigger] Self::corrigible_to(buff@, m)
                ==> r == Ok::<Message, MessageDeserializeErorr>(m),
    {
        if buff.len() < ECC_LEN || buff.len() > 255 {
            return Err(MessageDeserializeErorr::Ecc);
        }
        let rs = rs_correct(buff);
        proof {
            assert forall|m: Message| #[trigger] Self::corrigible_to(buff@, m)
                implies (rs is Some && rs->0@ == message_bytes(m)) by {
                let d = message_bytes(m);
                assert(encoded_block(m) == d + rs_ecc_of(d));
                assert(buff@.len() == d.len() + rs_ecc_of(d).len());
            }
        }
        let data = match rs {
            Option::Some(d) => d,
            Option::None => {
                return Err(MessageDeserializeErorr::Ecc);
            },
        };
        proof {
            assert forall|m: Message| #[trigger] Self::corrigible_to(buff@, m)
                implies decode_message(data@) == Some(m) by {
                assert(data@ == message_bytes(m));
                assert(data@.subrange(0, message_bytes(m).len() as int) =~= message_bytes(m));
                lemma_decode_message_inverts(data@, m);
            }
        }
        match read_message(data.as_slice()) {
            Option::Some(m) => Ok(m),
            Option::None => Err(MessageDeserializeErorr::Decode),
        }
    }
}

} // verus!
