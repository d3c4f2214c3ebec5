//! Outbound NSQ commands and their exact wire encoding.
//!
//! A command is an ASCII header line (name and parameters, ended by `\n`),
//! optionally followed by a size-prefixed body. The `Version` magic is the
//! bare four bytes `"  V2"` with no newline.

use vstd::prelude::*;
use crate::wire::{be32_bytes, dec_bytes};

verus! {

use vstd::string::StringSliceAdditionalSpecFns;
use vstd::utf8::encode_utf8;

/// A message payload, raw bytes.
pub type MessageBody = Vec<u8>;

/// Every command of the NSQ TCP v2 protocol that a client can send.
///
/// `Identify` carries the handshake JSON already rendered to UTF-8 bytes.
#[derive(Debug, Clone, PartialEq, Eq)]
pub enum Command {
    Version,
    Identify(Vec<u8>),
    Sub(String, String),
    Pub(String, MessageBody),
    Mpub(String, Vec<MessageBody>),
    Dpub(String, u64, MessageBody),
    Rdy(u64),
    Fin(String),
    Req(String, u64),
    Touch(String),
    Close,
    Nop,
    Auth(String),
}

/// The UTF-8 bytes of a string literal.
pub open spec fn lit(s: &str) -> Seq<u8> {
    encode_utf8(s@)
}

/// The header line of a command: its name and ASCII parameters.
pub open spec fn spec_header(cmd: Command) -> Seq<u8> {
    match cmd {
        Command::Version => lit("  V2"),
        Command::Identify(_) => lit("IDENTIFY\n"),
        Command::Sub(topic, channel) => lit("SUB ") + encode_utf8(topic@) + lit(" ") + encode_utf8(
            channel@,
        ) + lit("\n"),
        Command::Pub(topic, _) => lit("PUB ") + encode_utf8(topic@) + lit("\n"),
        Command::Mpub(topic, _) => lit("MPUB ") + encode_utf8(topic@) + lit("\n"),
        Command::Dpub(topic, defer, _) => lit("DPUB ") + encode_utf8(topic@) + lit(" ") + dec_bytes(
            defer as nat,
        ) + lit("\n"),
        Command::Rdy(count) => lit("RDY ") + dec_bytes(count as nat) + lit("\n"),
        Command::Fin(id) => lit("FIN ") + encode_utf8(id@) + lit("\n"),
        Command::Req(id, timeout) => lit("REQ ") + encode_utf8(id@) + lit(" ") + dec_bytes(
            timeout as nat,
        ) + lit("\n"),
        Command::Touch(id) => lit("TOUCH ") + encode_utf8(id@) + lit("\n"),
        Command::Close => lit("CLS\n"),
        Command::Nop => lit("NOP\n"),
        Command::Auth(_) => lit("AUTH\n"),
    }
}

/// The bytes of one MPUB item: a 4-byte length then the message.
pub open spec fn mpub_item(msg: Seq<u8>) -> Seq<u8> {
    be32_bytes(msg.len() as u32) + msg
}

/// The concatenated MPUB items.
pub open spec fn mpub_items(msgs: Seq<Seq<u8>>) -> Seq<u8>
    decreases msgs.len(),
{
    if msgs.len() == 0 {
        Seq::empty()
    } else {
        mpub_item(msgs[0]) + mpub_items(msgs.drop_first())
    }
}

/// The byte count of the MPUB items, before any truncation.
pub open spec fn mpub_items_len(msgs: Seq<Seq<u8>>) -> int
    decreases msgs.len(),
{
    if msgs.len() == 0 {
        0
    } else {
        4 + msgs[0].len() + mpub_items_len(msgs.drop_first())
    }
}

/// The MPUB body length field: the count field plus all items.
pub open spec fn mpub_total(msgs: Seq<Seq<u8>>) -> int {
    4 + mpub_items_len(msgs)
}

/// Whether a command's lengths fit the 32-bit wire format.
pub open spec fn encodable(cmd: Command) -> bool {
    match cmd {
        Command::Identify(json) => json@.len() <= u32::MAX,
        Command::Pub(_, body) => body@.len() <= u32::MAX,
        Command::Dpub(_, _, body) => body@.len() <= u32::MAX,
        Command::Auth(secret) => encode_utf8(secret@).len() <= u32::MAX,
        Command::Mpub(_, msgs) => mpub_total(msgs.deep_view()) <= u32::MAX,
        _ => true,
    }
}

/// The full wire encoding of a command: header, then the size-prefixed body
/// where the command has one.
pub open spec fn spec_encoded(cmd: Command) -> Seq<u8> {
    match cmd {
        Command::Identify(json) => spec_header(cmd) + be32_bytes(json@.len() as u32) + json@,
        Command::Pub(_, body) => spec_header(cmd) + be32_bytes(body@.len() as u32) + body@,
        Command::Dpub(_, _, body) => spec_header(cmd) + be32_bytes(body@.len() as u32) + body@,
        Command::Auth(secret) => spec_header(cmd) + be32_bytes(encode_utf8(secret@).len() as u32)
            + encode_utf8(secret@),
        Command::Mpub(_, msgs) => spec_header(cmd) + be32_bytes(
            mpub_total(msgs.deep_view()) as u32,
        ) + be32_bytes(msgs.deep_view().len() as u32) + mpub_items(msgs.deep_view()),
        _ => spec_header(cmd),
    }
}

/// Appending one message extends the MPUB items by that item.
pub proof fn lemma_mpub_items_push(msgs: Seq<Seq<u8>>, msg: Seq<u8>)
    ensures
        mpub_items(msgs.push(msg)) == mpub_items(msgs) + mpub_item(msg),
        mpub_items_len(msgs.push(msg)) == mpub_items_len(msgs) + 4 + msg.len(),
    decreases msgs.len(),
{
    if msgs.len() == 0 {
        assert(msgs.push(msg).drop_first() =~= msgs);
        assert(mpub_items(msgs.push(msg)) =~= mpub_item(msg));
        assert(mpub_items(msgs) + mpub_item(msg) =~= mpub_item(msg));
    } else {
        assert(msgs.push(msg).drop_first() =~= msgs.drop_first().push(msg));
        lemma_mpub_items_push(msgs.drop_first(), msg);
        assert(mpub_items(msgs.push(msg)) =~= mpub_items(msgs) + mpub_item(msg));
    }
}

/// The items are never shorter than four bytes per message, so a bounded
/// total also bounds the message count.
pub proof fn lemma_mpub_count_bound(msgs: Seq<Seq<u8>>)
    ensures
        mpub_items_len(msgs) >= 4 * msgs.len(),
    decreases msgs.len(),
{
    if msgs.len() > 0 {
        lemma_mpub_count_bound(msgs.drop_first());
    }
}

} // verus!
