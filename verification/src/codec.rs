//! The NSQ framing codec.
//!
//! Inbound data is a stream of frames: a big-endian 4-byte total length `L`,
//! then `L` bytes of payload. The payload starts with a big-endian 4-byte
//! frame type (0 response, 1 error, 2 message); the rest is the body.
//! A message body is a `u64` nanosecond timestamp, a `u16` attempt count, a
//! 16-byte id, and the remaining bytes of payload.
//!
//! Outbound data is the exact command encoding of [`crate::command`].

use vstd::prelude::*;
use crate::command::{encodable, mpub_item, mpub_items, mpub_items_len, mpub_total, spec_encoded,
    spec_header, Command};
use crate::error::{Error, NsqError, NsqErrorView};
use crate::json::{json_doc_of, json_ok};
use crate::wire::{be16_val, be32_bytes, be32_val, be64_val, push_be32, push_bytes, push_dec,
    push_str_bytes, read_be16, read_be32, read_be64, string_from_utf8, sub_vec};

verus! {

use vstd::string::{StrSliceExecFns, StringSliceAdditionalSpecFns};
use vstd::utf8::{decode_utf8, encode_utf8, valid_utf8};

/// Encoder and decoder of the NSQ frame protocol.
#[derive(Debug)]
pub struct NsqCodec {
    feature_negotiation: bool,
}

impl NsqCodec {
    pub fn new(feature_negotiation: bool) -> (c: NsqCodec) {
        NsqCodec { feature_negotiation }
    }
}

/// A decoded inbound frame.
#[derive(Debug, Clone, PartialEq, Eq)]
pub enum NsqFramed {
    Response(RawResponse),
    Error(NsqError),
    Message(NsqMsg),
}

/// The body of a response frame.
///
/// The three literal bodies have their own variants; any other body must be
/// a JSON text and is carried as that text.
#[derive(Debug, Clone, PartialEq, Eq)]
pub enum RawResponse {
    Okay,
    Heartbeat,
    CloseWait,
    Json(String),
}

/// An inbound message frame.
#[derive(Debug, Clone, PartialEq, Eq)]
pub struct NsqMsg {
    timestamp: u64,
    attempts: u16,
    message_id: String,
    body: Vec<u8>,
}

/// What an inbound message is mathematically.
pub struct MsgView {
    pub timestamp: u64,
    pub attempts: u16,
    pub message_id: Seq<char>,
    pub body: Seq<u8>,
}

impl View for NsqMsg {
    type V = MsgView;

    closed spec fn view(&self) -> MsgView {
        MsgView {
            timestamp: self.timestamp,
            attempts: self.attempts,
            message_id: self.message_id@,
            body: self.body@,
        }
    }
}

impl NsqMsg {
    /// The broker's send time, in nanoseconds.
    pub fn timestamp(&self) -> (r: u64)
        ensures
            r == self@.timestamp,
    {
        self.timestamp
    }

    /// How many times the message has been attempted.
    pub fn attempts(&self) -> (r: u16)
        ensures
            r == self@.attempts,
    {
        self.attempts
    }

    /// The 16-character message id.
    pub fn message_id(&self) -> (r: &String)
        ensures
            r@ == self@.message_id,
    {
        &self.message_id
    }

    /// The message payload.
    pub fn body(&self) -> (r: &Vec<u8>)
        ensures
            r@ == self@.body,
    {
        &self.body
    }
}

/// The view of a response body.
pub enum RawResponseView {
    Okay,
    Heartbeat,
    CloseWait,
    Json(Seq<char>),
}

impl View for RawResponse {
    type V = RawResponseView;

    open spec fn view(&self) -> RawResponseView {
        match self {
            RawResponse::Okay => RawResponseView::Okay,
            RawResponse::Heartbeat => RawResponseView::Heartbeat,
            RawResponse::CloseWait => RawResponseView::CloseWait,
            RawResponse::Json(s) => RawResponseView::Json(s@),
        }
    }
}

/// The view of a whole frame.
pub enum FrameView {
    Response(RawResponseView),
    Error(NsqErrorView),
    Message(MsgView),
}

impl View for NsqFramed {
    type V = FrameView;

    open spec fn view(&self) -> FrameView {
        match self {
            NsqFramed::Response(r) => FrameView::Response(r@),
            NsqFramed::Error(e) => FrameView::Error(e@),
            NsqFramed::Message(m) => FrameView::Message(m@),
        }
    }
}

impl DeepView for NsqFramed {
    type V = FrameView;

    open spec fn deep_view(&self) -> FrameView {
        self.view()
    }
}

/// Why a frame failed to parse.
pub enum DecodeFault {
    UnknownFrameType,
    TooShort,
    Utf8,
    Json,
}

/// The library error a parse fault turns into.
pub open spec fn fault_matches(f: DecodeFault, e: Error) -> bool {
    match f {
        DecodeFault::UnknownFrameType => e matches Error::IoError(m) && m@ == "unknown frame type"@,
        DecodeFault::TooShort => e matches Error::IoError(m) && m@ == "truncated frame"@,
        DecodeFault::Utf8 => e is Utf8Error,
        DecodeFault::Json => e matches Error::JsonError(m) && m@ == "invalid json body"@,
    }
}

/// Parsing of a response body: the three literals, else a JSON text.
pub open spec fn spec_parse_response(body: Seq<u8>) -> Result<RawResponseView, DecodeFault> {
    if !valid_utf8(body) {
        Result::Err(DecodeFault::Utf8)
    } else {
        let s = decode_utf8(body);
        if s == "OK"@ {
            Result::Ok(RawResponseView::Okay)
        } else if s == "CLOSE_WAIT"@ {
            Result::Ok(RawResponseView::CloseWait)
        } else if s == "_heartbeat_"@ {
            Result::Ok(RawResponseView::Heartbeat)
        } else if json_doc_of(s) is Some {
            Result::Ok(RawResponseView::Json(s))
        } else {
            Result::Err(DecodeFault::Json)
        }
    }
}

/// ASCII whitespace, as trimmed from an error description.
pub open spec fn is_ws(c: char) -> bool {
    c == ' ' || c == '\t' || c == '\r' || c == '\n'
}

/// The index of the first space of `s`, if any.
pub open spec fn first_space(s: Seq<char>) -> Option<int>
    decreases s.len(),
{
    if s.len() == 0 {
        Option::None
    } else if s[0] == ' ' {
        Option::Some(0int)
    } else {
        match first_space(s.drop_first()) {
            Option::Some(i) => Option::Some(i + 1),
            Option::None => Option::None,
        }
    }
}

/// `s` without leading ASCII whitespace.
pub open spec fn trim_front(s: Seq<char>) -> Seq<char>
    decreases s.len(),
{
    if s.len() > 0 && is_ws(s[0]) {
        trim_front(s.drop_first())
    } else {
        s
    }
}

/// `s` without trailing ASCII whitespace.
pub open spec fn trim_back(s: Seq<char>) -> Seq<char>
    decreases s.len(),
{
    if s.len() > 0 && is_ws(s.last()) {
        trim_back(s.drop_last())
    } else {
        s
    }
}

/// `s` without ASCII whitespace at either end.
pub open spec fn trim_chars(s: Seq<char>) -> Seq<char> {
    trim_back(trim_front(s))
}

/// Parsing of an error body: split on the first space into a code and a
/// trimmed description; with no space the code is `Unknown`.
pub open spec fn spec_parse_error(body: Seq<u8>) -> Result<NsqErrorView, DecodeFault> {
    if !valid_utf8(body) {
        Result::Err(DecodeFault::Utf8)
    } else {
        let s = decode_utf8(body);
        match first_space(s) {
            Option::Some(i) => Result::Ok(
                NsqErrorView { code: s.take(i), description: trim_chars(s.skip(i)) },
            ),
            Option::None => Result::Ok(NsqErrorView { code: "Unknown"@, description: s }),
        }
    }
}

/// Parsing of a message body.
pub open spec fn spec_parse_message(body: Seq<u8>) -> Result<MsgView, DecodeFault> {
    if body.len() < 26 {
        Result::Err(DecodeFault::TooShort)
    } else if !valid_utf8(body.subrange(10, 26)) {
        Result::Err(DecodeFault::Utf8)
    } else {
        Result::Ok(
            MsgView {
                timestamp: be64_val(body.subrange(0, 8)) as u64,
                attempts: be16_val(body.subrange(8, 10)) as u16,
                message_id: decode_utf8(body.subrange(10, 26)),
                body: body.skip(26),
            },
        )
    }
}

/// Parsing of a whole frame payload: the 4-byte type, then the body.
pub open spec fn spec_parse_payload(p: Seq<u8>) -> Result<FrameView, DecodeFault> {
    if p.len() < 4 {
        Result::Err(DecodeFault::TooShort)
    } else {
        let t = be32_val(p.subrange(0, 4));
        let body = p.skip(4);
        if t == 0 {
            match spec_parse_response(body) {
                Result::Ok(r) => Result::Ok(FrameView::Response(r)),
                Result::Err(f) => Result::Err(f),
            }
        } else if t == 1 {
            match spec_parse_error(body) {
                Result::Ok(e) => Result::Ok(FrameView::Error(e)),
                Result::Err(f) => Result::Err(f),
            }
        } else if t == 2 {
            match spec_parse_message(body) {
                Result::Ok(m) => Result::Ok(FrameView::Message(m)),
                Result::Err(f) => Result::Err(f),
            }
        } else {
            Result::Err(DecodeFault::UnknownFrameType)
        }
    }
}

/// Where the first space of a text stands, given that none stands earlier.
proof fn lemma_first_space_at(s: Seq<char>, i: int)
    requires
        0 <= i <= s.len(),
        forall|j: int| 0 <= j < i ==> s[j] != ' ',
    ensures
        i == s.len() ==> first_space(s) is None,
        (i < s.len() && s[i] == ' ') ==> first_space(s) == Option::Some(i),
    decreases s.len(),
{
    if s.len() == 0 {
    } else if s[0] == ' ' {
    } else {
        let s2 = s.drop_first();
        if i > 0 {
            assert forall|j: int| 0 <= j < i - 1 implies s2[j] != ' ' by {
                assert(s2[j] == s[j + 1]);
            }
            lemma_first_space_at(s2, i - 1);
            if i < s.len() && s[i] == ' ' {
                assert(s2[i - 1] == s[i]);
            }
        }
    }
}

/// ASCII whitespace, decided in executable code.
fn is_ws_char(c: char) -> (r: bool)
    ensures
        r == is_ws(c),
{
    c == ' ' || c == '\t' || c == '\r' || c == '\n'
}

/// Parses a response frame body.
pub fn decode_raw_response(body: Vec<u8>) -> (r: Result<RawResponse, Error>)
    ensures
        r matches Ok(resp) ==> spec_parse_response(body@) == Result::<RawResponseView, DecodeFault>::Ok(resp@),
        r matches Err(e) ==> spec_parse_response(body@) matches Result::Err(f) && fault_matches(f, e),
{
    match string_from_utf8(body) {
        Option::None => Result::Err(Error::Utf8Error),
        Option::Some(s) => {
            if s == "OK".to_owned() {
                Result::Ok(RawResponse::Okay)
            } else if s == "CLOSE_WAIT".to_owned() {
                Result::Ok(RawResponse::CloseWait)
            } else if s == "_heartbeat_".to_owned() {
                Result::Ok(RawResponse::Heartbeat)
            } else {
                if json_ok(s.as_str()) {
                    Result::Ok(RawResponse::Json(s))
                } else {
                    Result::Err(Error::JsonError("invalid json body".to_owned()))
                }
            }
        },
    }
}

/// Parses an error frame body into the broker's code and description.
pub fn decode_error(body: Vec<u8>) -> (r: Result<NsqError, Error>)
    ensures
        r matches Ok(e) ==> spec_parse_error(body@) == Result::<NsqErrorView, DecodeFault>::Ok(e@),
        r matches Err(e) ==> spec_parse_error(body@) matches Result::Err(f) && fault_matches(f, e),
{
    let ghost bytes = body@;
    match string_from_utf8(body) {
        Option::None => Result::Err(Error::Utf8Error),
        Option::Some(s) => {
            let st = s.as_str();
            let n = st.unicode_len();
            let mut i: usize = 0;
            while i < n && st.get_char(i) != ' '
                invariant
                    0 <= i <= n,
                    n == st@.len(),
                    st@ == decode_utf8(bytes),
                    valid_utf8(bytes),
                    forall|j: int| 0 <= j < i ==> st@[j] != ' ',
                decreases n - i,
            {
                i = i + 1;
            }
            proof {
                lemma_first_space_at(st@, i as int);
            }
            if i < n {
                let code = st.substring_char(0, i).to_owned();
                let ghost tail = st@.subrange(i as int, n as int);
                let mut a: usize = i;
                while a < n && is_ws_char(st.get_char(a))
                    invariant
                        i <= a <= n,
                        n == st@.len(),
                        tail == st@.subrange(i as int, n as int),
                        trim_front(tail) == trim_front(st@.subrange(a as int, n as int)),
                    decreases n - a,
                {
                    proof {
                        assert(st@.subrange(a as int, n as int).drop_first() =~= st@.subrange(
                            a + 1,
                            n as int,
                        ));
                    }
                    a = a + 1;
                }
                proof {
                    assert(trim_front(tail) == st@.subrange(a as int, n as int));
                }
                let mut b: usize = n;
                while b > a && is_ws_char(st.get_char(b - 1))
                    invariant
                        a <= b <= n,
                        n == st@.len(),
                        trim_back(trim_front(tail)) == trim_back(
                            st@.subrange(a as int, b as int),
                        ),
                    decreases b,
                {
                    proof {
                        assert(st@.subrange(a as int, b as int).drop_last() =~= st@.subrange(
                            a as int,
                            b - 1,
                        ));
                    }
                    b = b - 1;
                }
                proof {
                    assert(trim_chars(tail) == st@.subrange(a as int, b as int));
                }
                let desc = st.substring_char(a, b).to_owned();
                proof {
                    assert(st@.take(i as int) =~= st@.subrange(0, i as int));
                    assert(st@.skip(i as int) =~= tail);
                }
                Result::Ok(NsqError::new(code, desc))
            } else {
                proof {
                    assert(first_space(st@) is None);
                }
                Result::Ok(NsqError::new("Unknown".to_owned(), s))
            }
        },
    }
}

/// Parses a message frame body.
pub fn decode_message(body: Vec<u8>) -> (r: Result<NsqMsg, Error>)
    ensures
        r matches Ok(m) ==> spec_parse_message(body@) == Result::<MsgView, DecodeFault>::Ok(m@),
        r matches Err(e) ==> spec_parse_message(body@) matches Result::Err(f) && fault_matches(f, e),
{
    let n = body.len();
    if n < 26 {
        return Result::Err(Error::IoError("truncated frame".to_owned()));
    }
    let timestamp = read_be64(&body, 0);
    let attempts = read_be16(&body, 8);
    let id_bytes = sub_vec(&body, 10, 26);
    let ghost id_seq = id_bytes@;
    match string_from_utf8(id_bytes) {
        Option::None => Result::Err(Error::Utf8Error),
        Option::Some(message_id) => {
            let rest = sub_vec(&body, 26, n);
            proof {
                assert(rest@ =~= body@.skip(26));
                crate::wire::lemma_be64_bound(body@.subrange(0, 8));
                crate::wire::lemma_be16_bound(body@.subrange(8, 10));
            }
            Result::Ok(NsqMsg { timestamp, attempts, message_id, body: rest })
        },
    }
}

/// Parses a whole frame payload: type field, then the matching body parse.
pub fn decode_payload(payload: Vec<u8>) -> (r: Result<NsqFramed, Error>)
    ensures
        r matches Ok(f) ==> spec_parse_payload(payload@) == Result::<FrameView, DecodeFault>::Ok(f@),
        r matches Err(e) ==> spec_parse_payload(payload@) matches Result::Err(fa) && fault_matches(
            fa,
            e,
        ),
{
    let n = payload.len();
    if n < 4 {
        return Result::Err(Error::IoError("truncated frame".to_owned()));
    }
    let t = read_be32(&payload, 0);
    let body = sub_vec(&payload, 4, n);
    proof {
        assert(body@ =~= payload@.skip(4));
    }
    if t == 0 {
        match decode_raw_response(body) {
            Result::Ok(resp) => Result::Ok(NsqFramed::Response(resp)),
            Result::Err(e) => Result::Err(e),
        }
    } else if t == 1 {
        match decode_error(body) {
            Result::Ok(e) => Result::Ok(NsqFramed::Error(e)),
            Result::Err(e) => Result::Err(e),
        }
    } else if t == 2 {
        match decode_message(body) {
            Result::Ok(m) => Result::Ok(NsqFramed::Message(m)),
            Result::Err(e) => Result::Err(e),
        }
    } else {
        Result::Err(Error::IoError("unknown frame type".to_owned()))
    }
}

/// The length field of the frame at the head of a buffer.
pub open spec fn frame_len(s: Seq<u8>) -> int
    recommends
        s.len() >= 4,
{
    be32_val(s.subrange(0, 4))
}

/// Whether a buffer holds a complete frame at its head.
pub open spec fn has_frame(s: Seq<u8>) -> bool {
    s.len() >= 4 && s.len() >= 4 + frame_len(s)
}

/// The size-prefixed body a command sends after its header, if it has one.
///
/// For MPUB this is everything its total-length field counts: the message
/// count and the size-prefixed messages.
pub open spec fn spec_body(cmd: Command) -> Option<Seq<u8>> {
    match cmd {
        Command::Identify(json) => Option::Some(json@),
        Command::Pub(_, body) => Option::Some(body@),
        Command::Dpub(_, _, body) => Option::Some(body@),
        Command::Auth(secret) => Option::Some(encode_utf8(secret@)),
        Command::Mpub(_, msgs) => Option::Some(
            be32_bytes(msgs.deep_view().len() as u32) + mpub_items(msgs.deep_view()),
        ),
        _ => Option::None,
    }
}

/// The MPUB items take exactly the bytes their length formula counts.
proof fn lemma_mpub_items_len_is_len(msgs: Seq<Seq<u8>>)
    ensures
        mpub_items(msgs).len() == mpub_items_len(msgs),
    decreases msgs.len(),
{
    if msgs.len() > 0 {
        lemma_mpub_items_len_is_len(msgs.drop_first());
    }
}

/// Law: a command with a body is encoded as its header, then four length
/// bytes that read back as exactly the count of bytes that follow them; a
/// command without a body is its bare header.
pub proof fn lemma_encoded_well_formed(cmd: Command)
    requires
        encodable(cmd),
    ensures
        spec_body(cmd) matches Some(b) ==> {
            let h = spec_header(cmd).len() as int;
            &&& spec_encoded(cmd) == spec_header(cmd) + be32_bytes(b.len() as u32) + b
            &&& be32_val(spec_encoded(cmd).subrange(h, h + 4)) == b.len()
            &&& spec_encoded(cmd).len() == h + 4 + b.len()
        },
        spec_body(cmd) is None ==> spec_encoded(cmd) == spec_header(cmd),
{
    match cmd {
        Command::Mpub(_, msgs) => {
            let dv = msgs.deep_view();
            let b = spec_body(cmd).unwrap();
            lemma_mpub_items_len_is_len(dv);
            lemma_mpub_items_len_nonneg(dv);
            assert(b.len() == 4 + mpub_items_len(dv));
            assert(b.len() as u32 == mpub_total(dv) as u32);
            assert(spec_encoded(cmd) =~= spec_header(cmd) + be32_bytes(b.len() as u32) + b);
            let h = spec_header(cmd).len() as int;
            assert(spec_encoded(cmd).subrange(h, h + 4) =~= be32_bytes(b.len() as u32));
            crate::wire::lemma_be32_roundtrip(b.len() as u32);
        },
        Command::Identify(json) => {
            let b = json@;
            let h = spec_header(cmd).len() as int;
            assert(spec_encoded(cmd).subrange(h, h + 4) =~= be32_bytes(b.len() as u32));
            crate::wire::lemma_be32_roundtrip(b.len() as u32);
        },
        Command::Pub(_, body) => {
            let b = body@;
            let h = spec_header(cmd).len() as int;
            assert(spec_encoded(cmd).subrange(h, h + 4) =~= be32_bytes(b.len() as u32));
            crate::wire::lemma_be32_roundtrip(b.len() as u32);
        },
        Command::Dpub(_, _, body) => {
            let b = body@;
            let h = spec_header(cmd).len() as int;
            assert(spec_encoded(cmd).subrange(h, h + 4) =~= be32_bytes(b.len() as u32));
            crate::wire::lemma_be32_roundtrip(b.len() as u32);
        },
        Command::Auth(secret) => {
            let b = encode_utf8(secret@);
            let h = spec_header(cmd).len() as int;
            assert(spec_encoded(cmd).subrange(h, h + 4) =~= be32_bytes(b.len() as u32));
            crate::wire::lemma_be32_roundtrip(b.len() as u32);
        },
        _ => {},
    }
}

/// Law: the two MPUB count fields read back as the announced formulas: the
/// total-length field as `4` plus the sum of `4 + len(m)` over the
/// messages, and the count field as the number of messages.
pub proof fn lemma_mpub_encoding(topic: String, msgs: Vec<Vec<u8>>)
    requires
        encodable(Command::Mpub(topic, msgs)),
    ensures
        ({
            let dv = msgs.deep_view();
            let enc = spec_encoded(Command::Mpub(topic, msgs));
            let h = spec_header(Command::Mpub(topic, msgs)).len() as int;
            &&& be32_val(enc.subrange(h, h + 4)) == 4 + mpub_items_len(dv)
            &&& be32_val(enc.subrange(h + 4, h + 8)) == dv.len()
            &&& enc.len() == h + 8 + mpub_items_len(dv)
        }),
{
    let dv = msgs.deep_view();
    let enc = spec_encoded(Command::Mpub(topic, msgs));
    let h = spec_header(Command::Mpub(topic, msgs)).len() as int;
    lemma_mpub_items_len_is_len(dv);
    lemma_mpub_items_len_nonneg(dv);
    crate::command::lemma_mpub_count_bound(dv);
    assert(enc.subrange(h, h + 4) =~= be32_bytes(mpub_total(dv) as u32));
    assert(enc.subrange(h + 4, h + 8) =~= be32_bytes(dv.len() as u32));
    crate::wire::lemma_be32_roundtrip(mpub_total(dv) as u32);
    crate::wire::lemma_be32_roundtrip(dv.len() as u32);
}

/// The MPUB item bytes never take a negative count.
proof fn lemma_mpub_items_len_nonneg(msgs: Seq<Seq<u8>>)
    ensures
        mpub_items_len(msgs) >= 0,
    decreases msgs.len(),
{
    if msgs.len() > 0 {
        lemma_mpub_items_len_nonneg(msgs.drop_first());
    }
}

/// Extending the prefix by one message grows its item bytes by that item.
proof fn lemma_mpub_take_succ(msgs: Seq<Seq<u8>>, k: int)
    requires
        0 <= k < msgs.len(),
    ensures
        mpub_items_len(msgs.take(k + 1)) == mpub_items_len(msgs.take(k)) + 4 + msgs[k].len(),
        mpub_items(msgs.take(k + 1)) == mpub_items(msgs.take(k)) + mpub_item(msgs[k]),
{
    assert(msgs.take(k + 1) =~= msgs.take(k).push(msgs[k]));
    crate::command::lemma_mpub_items_push(msgs.take(k), msgs[k]);
}

/// A prefix of the messages never has more item bytes than the whole.
proof fn lemma_mpub_prefix_bound(msgs: Seq<Seq<u8>>, k: int)
    requires
        0 <= k <= msgs.len(),
    ensures
        mpub_items_len(msgs.take(k)) <= mpub_items_len(msgs),
    decreases msgs.len() - k,
{
    if k == msgs.len() {
        assert(msgs.take(k) =~= msgs);
    } else {
        lemma_mpub_take_succ(msgs, k);
        lemma_mpub_prefix_bound(msgs, k + 1);
    }
}

impl NsqCodec {
    /// Appends the exact wire encoding of `cmd` to `buf`.
    ///
    /// The lengths of `cmd` must fit the protocol's 32-bit size fields;
    /// encoding then always succeeds.
    pub fn encode(&mut self, cmd: Command, buf: &mut Vec<u8>) -> (r: Result<(), Error>)
        requires
            encodable(cmd),
        ensures
            r is Ok,
            final(buf)@ == old(buf)@ + spec_encoded(cmd),
    {
        match cmd {
            Command::Version => {
                push_str_bytes(buf, "  V2");
            },
            Command::Identify(json) => {
                push_str_bytes(buf, "IDENTIFY\n");
                push_be32(buf, json.len() as u32);
                push_bytes(buf, &json);
                assert(buf@ =~= old(buf)@ + spec_encoded(Command::Identify(json)));
            },
            Command::Sub(topic, channel) => {
                push_str_bytes(buf, "SUB ");
                push_str_bytes(buf, topic.as_str());
                push_str_bytes(buf, " ");
                push_str_bytes(buf, channel.as_str());
                push_str_bytes(buf, "\n");
                assert(buf@ =~= old(buf)@ + spec_encoded(Command::Sub(topic, channel)));
            },
            Command::Pub(topic, body) => {
                push_str_bytes(buf, "PUB ");
                push_str_bytes(buf, topic.as_str());
                push_str_bytes(buf, "\n");
                push_be32(buf, body.len() as u32);
                push_bytes(buf, &body);
                assert(buf@ =~= old(buf)@ + spec_encoded(Command::Pub(topic, body)));
            },
            Command::Mpub(topic, msgs) => {
                push_str_bytes(buf, "MPUB ");
                push_str_bytes(buf, topic.as_str());
                push_str_bytes(buf, "\n");
                self.encode_mpub_body(&msgs, buf);
                assert(buf@ =~= old(buf)@ + spec_encoded(Command::Mpub(topic, msgs)));
            },
            Command::Dpub(topic, defer, body) => {
                push_str_bytes(buf, "DPUB ");
                push_str_bytes(buf, topic.as_str());
                push_str_bytes(buf, " ");
                push_dec(buf, defer);
                push_str_bytes(buf, "\n");
                push_be32(buf, body.len() as u32);
                push_bytes(buf, &body);
                assert(buf@ =~= old(buf)@ + spec_encoded(Command::Dpub(topic, defer, body)));
            },
            Command::Rdy(count) => {
                push_str_bytes(buf, "RDY ");
                push_dec(buf, count);
                push_str_bytes(buf, "\n");
                assert(buf@ =~= old(buf)@ + spec_encoded(Command::Rdy(count)));
            },
            Command::Fin(id) => {
                push_str_bytes(buf, "FIN ");
                push_str_bytes(buf, id.as_str());
                push_str_bytes(buf, "\n");
                assert(buf@ =~= old(buf)@ + spec_encoded(Command::Fin(id)));
            },
            Command::Req(id, timeout) => {
                push_str_bytes(buf, "REQ ");
                push_str_bytes(buf, id.as_str());
                push_str_bytes(buf, " ");
                push_dec(buf, timeout);
                push_str_bytes(buf, "\n");
                assert(buf@ =~= old(buf)@ + spec_encoded(Command::Req(id, timeout)));
            },
            Command::Touch(id) => {
                push_str_bytes(buf, "TOUCH ");
                push_str_bytes(buf, id.as_str());
                push_str_bytes(buf, "\n");
                assert(buf@ =~= old(buf)@ + spec_encoded(Command::Touch(id)));
            },
            Command::Close => {
                push_str_bytes(buf, "CLS\n");
            },
            Command::Nop => {
                push_str_bytes(buf, "NOP\n");
            },
            Command::Auth(secret) => {
                push_str_bytes(buf, "AUTH\n");
                let bytes = secret.as_str().as_bytes_vec();
                push_be32(buf, bytes.len() as u32);
                push_bytes(buf, &bytes);
                assert(buf@ =~= old(buf)@ + spec_encoded(Command::Auth(secret)));
            },
        }
        Result::Ok(())
    }

    /// Takes one complete frame off the head of `buf` and parses it.
    ///
    /// With fewer bytes than one frame the buffer is left alone and `None`
    /// comes back; otherwise the frame's bytes are consumed, whether the
    /// parse succeeds or fails.
    pub fn decode(&mut self, buf: &mut Vec<u8>) -> (r: Result<Option<NsqFramed>, Error>)
        ensures
            !has_frame(old(buf)@) ==> (r matches Ok(o) && o is None && final(buf)@ == old(buf)@),
            has_frame(old(buf)@) ==> {
                let payload = old(buf)@.subrange(4, 4 + frame_len(old(buf)@));
                &&& final(buf)@ == old(buf)@.skip(4 + frame_len(old(buf)@))
                &&& (r matches Ok(o) ==> o matches Some(f) && spec_parse_payload(payload)
                    == Result::<FrameView, DecodeFault>::Ok(f@))
                &&& (r matches Err(e) ==> spec_parse_payload(payload) matches Result::Err(fa)
                    && fault_matches(fa, e))
            },
    {
        let n = buf.len();
        if n < 4 {
            return Result::Ok(Option::None);
        }
        let l32 = read_be32(buf, 0);
        proof {
            crate::wire::lemma_be32_bound(buf@.subrange(0, 4));
        }
        let l = l32 as usize;
        if n - 4 < l {
            return Result::Ok(Option::None);
        }
        let payload = sub_vec(buf, 4, 4 + l);
        let rest = buf.split_off(4 + l);
        *buf = rest;
        proof {
            assert(buf@ =~= old(buf)@.skip(4 + frame_len(old(buf)@)));
        }
        match decode_payload(payload) {
            Result::Ok(f) => Result::Ok(Option::Some(f)),
            Result::Err(e) => Result::Err(e),
        }
    }

    /// Appends the MPUB body: total length, count, then each size-prefixed
    /// message.
    fn encode_mpub_body(&mut self, msgs: &Vec<Vec<u8>>, buf: &mut Vec<u8>)
        requires
            mpub_total(msgs.deep_view()) <= u32::MAX,
        ensures
            final(buf)@ == old(buf)@ + be32_bytes(mpub_total(msgs.deep_view()) as u32)
                + be32_bytes(msgs.deep_view().len() as u32) + mpub_items(msgs.deep_view()),
    {
        let ghost dv = msgs.deep_view();
        proof {
            assert(dv.len() == msgs@.len());
            lemma_mpub_items_len_nonneg(dv);
            crate::command::lemma_mpub_count_bound(dv);
        }
        let n = msgs.len();
        let mut total: u64 = 4;
        let mut k: usize = 0;
        proof {
            assert(dv.take(0) =~= Seq::<Seq<u8>>::empty());
        }
        while k < n
            invariant
                0 <= k <= n,
                n == dv.len(),
                dv == msgs.deep_view(),
                mpub_total(dv) <= u32::MAX,
                total == 4 + mpub_items_len(dv.take(k as int)),
            decreases n - k,
        {
            proof {
                lemma_mpub_take_succ(dv, k as int);
                lemma_mpub_prefix_bound(dv, k as int + 1);
                lemma_mpub_items_len_nonneg(dv.take(k as int));
                assert(dv[k as int] == msgs@[k as int]@);
            }
            total = total + 4 + msgs[k].len() as u64;
            k = k + 1;
        }
        proof {
            assert(dv.take(n as int) =~= dv);
        }
        push_be32(buf, total as u32);
        push_be32(buf, n as u32);
        let ghost base = buf@;
        let mut j: usize = 0;
        proof {
            assert(dv.take(0) =~= Seq::<Seq<u8>>::empty());
        }
        while j < n
            invariant
                0 <= j <= n,
                n == dv.len(),
                dv == msgs.deep_view(),
                mpub_total(dv) <= u32::MAX,
                buf@ == base + mpub_items(dv.take(j as int)),
            decreases n - j,
        {
            proof {
                lemma_mpub_take_succ(dv, j as int);
                lemma_mpub_prefix_bound(dv, j as int + 1);
                lemma_mpub_items_len_nonneg(dv.take(j as int));
                assert(dv[j as int] == msgs@[j as int]@);
            }
            push_be32(buf, msgs[j].len() as u32);
            push_bytes(buf, &msgs[j]);
            j = j + 1;
            assert(buf@ =~= base + mpub_items(dv.take(j as int)));
        }
        proof {
            assert(dv.take(n as int) =~= dv);
            assert(buf@ =~= old(buf)@ + be32_bytes(mpub_total(dv) as u32) + be32_bytes(
                dv.len() as u32,
            ) + mpub_items(dv));
        }
    }
}

} // verus!
