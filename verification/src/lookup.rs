//! The typed records of the discovery (lookup) HTTP protocol, and the
//! parsing of its JSON responses.
//!
//! The HTTP calls themselves live outside the library; the response bodies
//! come in as JSON texts, parse to the library's [`Json`] tree behind the
//! trusted boundary, and leave as the plain records here, each pinned by a
//! spec function over the tree. The node parameter of a tombstone request
//! is also rendered here.

use vstd::prelude::*;
use crate::error::Error;
use crate::identify::{body_error, field_error};
use crate::json::{get_array_field, get_string_field, get_u64_field, json_doc_of, parse_json_doc,
    spec_array_field, spec_string_field, spec_u64_field, Json};
use crate::wire::{dec_chars, dec_string};

verus! {

/// One producer entry of a lookup response.
#[derive(Debug, Clone, PartialEq, Eq)]
pub struct Producer {
    pub broadcast_address: String,
    pub hostname: String,
    pub remote_address: String,
    pub tcp_port: u16,
    pub http_port: u16,
    pub version: String,
}

/// The reply to a topic lookup: its channels and its producers.
#[derive(Debug, Clone, PartialEq, Eq)]
pub struct LookupResponse {
    pub channels: Vec<String>,
    pub producers: Vec<Producer>,
}

/// The reply to a topics query.
#[derive(Debug, Clone, PartialEq, Eq)]
pub struct TopicsResponse {
    pub topics: Vec<String>,
}

/// The reply to a channels query.
#[derive(Debug, Clone, PartialEq, Eq)]
pub struct ChannelsResponse {
    pub channels: Vec<String>,
}

/// The reply to a nodes query.
#[derive(Debug, Clone, PartialEq, Eq)]
pub struct NodesResponse {
    pub producers: Vec<Node>,
}

/// A known broker node: a producer entry with its tombstones and topics.
#[derive(Debug, Clone, PartialEq, Eq)]
pub struct Node {
    pub broadcast_address: String,
    pub hostname: String,
    pub remote_address: String,
    pub tcp_port: u16,
    pub http_port: u16,
    pub version: String,
    pub tombstones: Vec<bool>,
    pub topics: Vec<String>,
}

/// The reply to an info query.
#[derive(Debug, Clone, PartialEq, Eq)]
pub struct InfoResponse {
    pub version: String,
}

/// A port field: an unsigned number that fits 16 bits.
pub open spec fn spec_port_field(j: Json, key: Seq<char>) -> Option<u16> {
    match spec_u64_field(j, key) {
        Option::Some(n) => if n <= u16::MAX {
            Option::Some(n as u16)
        } else {
            Option::None
        },
        Option::None => Option::None,
    }
}

/// The strings of a JSON array, if every element is a string.
pub open spec fn spec_strings(items: Seq<Json>) -> Option<Seq<String>>
    decreases items.len(),
{
    if items.len() == 0 {
        Option::Some(Seq::empty())
    } else {
        match items[0] {
            Json::Str(s) => match spec_strings(items.drop_first()) {
                Option::Some(rest) => Option::Some(seq![s] + rest),
                Option::None => Option::None,
            },
            _ => Option::None,
        }
    }
}

/// The booleans of a JSON array, if every element is a boolean.
pub open spec fn spec_bools(items: Seq<Json>) -> Option<Seq<bool>>
    decreases items.len(),
{
    if items.len() == 0 {
        Option::Some(Seq::empty())
    } else {
        match items[0] {
            Json::Bool(b) => match spec_bools(items.drop_first()) {
                Option::Some(rest) => Option::Some(seq![b] + rest),
                Option::None => Option::None,
            },
            _ => Option::None,
        }
    }
}

/// The producer entry a JSON document carries, if well-typed.
pub open spec fn spec_producer(j: Json) -> Option<Producer> {
    let broadcast_address = spec_string_field(j, "broadcast_address"@);
    let hostname = spec_string_field(j, "hostname"@);
    let remote_address = spec_string_field(j, "remote_address"@);
    let tcp_port = spec_port_field(j, "tcp_port"@);
    let http_port = spec_port_field(j, "http_port"@);
    let version = spec_string_field(j, "version"@);
    if broadcast_address is Some && hostname is Some && remote_address is Some && tcp_port is Some
        && http_port is Some && version is Some {
        Option::Some(
            Producer {
                broadcast_address: broadcast_address.unwrap(),
                hostname: hostname.unwrap(),
                remote_address: remote_address.unwrap(),
                tcp_port: tcp_port.unwrap(),
                http_port: http_port.unwrap(),
                version: version.unwrap(),
            },
        )
    } else {
        Option::None
    }
}

/// The producer entries of a JSON array, if every element is one.
pub open spec fn spec_producers(items: Seq<Json>) -> Option<Seq<Producer>>
    decreases items.len(),
{
    if items.len() == 0 {
        Option::Some(Seq::empty())
    } else {
        match spec_producer(items[0]) {
            Option::Some(p) => match spec_producers(items.drop_first()) {
                Option::Some(rest) => Option::Some(seq![p] + rest),
                Option::None => Option::None,
            },
            Option::None => Option::None,
        }
    }
}

/// Whether a JSON document carries a node entry.
pub open spec fn spec_node_ok(j: Json) -> bool {
    &&& spec_producer(j) is Some
    &&& (spec_array_field(j, "tombstones"@) matches Some(ts) && spec_bools(ts) is Some)
    &&& (spec_array_field(j, "topics"@) matches Some(tp) && spec_strings(tp) is Some)
}

/// The node a JSON document carries, field for field. A `Node` holds
/// vectors, which a spec function cannot build, so the record is pinned by
/// this relation instead.
pub open spec fn spec_node_matches(j: Json, n: Node) -> bool {
    &&& spec_producer(j) matches Some(p) && p.broadcast_address == n.broadcast_address
        && p.hostname == n.hostname && p.remote_address == n.remote_address && p.tcp_port
        == n.tcp_port && p.http_port == n.http_port && p.version == n.version
    &&& (spec_array_field(j, "tombstones"@) matches Some(ts) && spec_bools(ts) == Option::Some(
        n.tombstones@,
    ))
    &&& (spec_array_field(j, "topics"@) matches Some(tp) && spec_strings(tp) == Option::Some(
        n.topics@,
    ))
}

/// Whether every element of a JSON array carries a node entry.
pub open spec fn spec_nodes_ok(items: Seq<Json>) -> bool {
    forall|k: int| 0 <= k < items.len() ==> spec_node_ok(#[trigger] items[k])
}

/// Whether a JSON document carries a lookup reply.
pub open spec fn spec_lookup_reply_ok(j: Json) -> bool {
    &&& (spec_array_field(j, "channels"@) matches Some(ch) && spec_strings(ch) is Some)
    &&& (spec_array_field(j, "producers"@) matches Some(pr) && spec_producers(pr) is Some)
}

/// Collects a string array: exactly `spec_strings` of the elements.
#[verifier::loop_isolation(false)]
fn parse_strings(items: &Vec<Json>) -> (r: Result<Vec<String>, Error>)
    ensures
        r matches Ok(out) ==> spec_strings(items@) == Option::Some(out@),
        r matches Err(e) ==> spec_strings(items@) is None && (e matches Error::JsonError(m) && m@
            == "missing or ill-typed field"@),
{
    let mut out: Vec<String> = Vec::new();
    let n = items.len();
    let mut i: usize = 0;
    proof {
        assert(items@.skip(0) =~= items@);
    }
    while i < n
        invariant
            0 <= i <= n,
            n == items@.len(),
            out@.len() == i,
            spec_strings(items@) == (match spec_strings(items@.skip(i as int)) {
                Option::Some(tail) => Option::Some(out@ + tail),
                Option::None => Option::<Seq<String>>::None,
            }),
        decreases n - i,
    {
        proof {
            assert(items@.skip(i as int)[0] == items@[i as int]);
            assert(items@.skip(i as int).drop_first() =~= items@.skip(i as int + 1));
        }
        match &items[i] {
            Json::Str(s) => {
                let ghost pre = out@;
                out.push(s.clone());
                proof {
                    match spec_strings(items@.skip(i as int + 1)) {
                        Option::Some(tail) => {
                            assert(out@ + tail =~= pre + (seq![items@[i as int]->Str_0] + tail));
                        },
                        Option::None => {},
                    }
                }
            },
            _ => {
                return Result::Err(field_error());
            },
        }
        i = i + 1;
    }
    proof {
        assert(items@.skip(n as int) =~= Seq::<Json>::empty());
        assert(out@ + Seq::<String>::empty() =~= out@);
    }
    Result::Ok(out)
}

/// Collects a boolean array: exactly `spec_bools` of the elements.
#[verifier::loop_isolation(false)]
fn parse_bools(items: &Vec<Json>) -> (r: Result<Vec<bool>, Error>)
    ensures
        r matches Ok(out) ==> spec_bools(items@) == Option::Some(out@),
        r matches Err(e) ==> spec_bools(items@) is None && (e matches Error::JsonError(m) && m@
            == "missing or ill-typed field"@),
{
    let mut out: Vec<bool> = Vec::new();
    let n = items.len();
    let mut i: usize = 0;
    proof {
        assert(items@.skip(0) =~= items@);
    }
    while i < n
        invariant
            0 <= i <= n,
            n == items@.len(),
            out@.len() == i,
            spec_bools(items@) == (match spec_bools(items@.skip(i as int)) {
                Option::Some(tail) => Option::Some(out@ + tail),
                Option::None => Option::<Seq<bool>>::None,
            }),
        decreases n - i,
    {
        proof {
            assert(items@.skip(i as int)[0] == items@[i as int]);
            assert(items@.skip(i as int).drop_first() =~= items@.skip(i as int + 1));
        }
        match &items[i] {
            Json::Bool(b) => {
                let ghost pre = out@;
                out.push(*b);
                proof {
                    match spec_bools(items@.skip(i as int + 1)) {
                        Option::Some(tail) => {
                            assert(out@ + tail =~= pre + (seq![items@[i as int]->Bool_0] + tail));
                        },
                        Option::None => {},
                    }
                }
            },
            _ => {
                return Result::Err(field_error());
            },
        }
        i = i + 1;
    }
    proof {
        assert(items@.skip(n as int) =~= Seq::<Json>::empty());
        assert(out@ + Seq::<bool>::empty() =~= out@);
    }
    Result::Ok(out)
}

/// Reads a port field.
fn get_port_field(j: &Json, key: &str) -> (r: Option<u16>)
    ensures
        r == spec_port_field(*j, key@),
{
    match get_u64_field(j, key) {
        Option::Some(n) => {
            if n <= u16::MAX as u64 {
                Option::Some(n as u16)
            } else {
                Option::None
            }
        },
        Option::None => Option::None,
    }
}

impl Producer {
    /// Reads one producer entry out of a parsed document: exactly the
    /// record `spec_producer` defines.
    pub fn from_json(j: &Json) -> (r: Result<Producer, Error>)
        ensures
            r matches Ok(p) ==> spec_producer(*j) == Option::Some(p),
            r matches Err(e) ==> spec_producer(*j) is None && (e matches Error::JsonError(m) && m@
                == "missing or ill-typed field"@),
    {
        let broadcast_address = match get_string_field(j, "broadcast_address") {
            Option::Some(s) => s,
            Option::None => {
                return Result::Err(field_error());
            },
        };
        let hostname = match get_string_field(j, "hostname") {
            Option::Some(s) => s,
            Option::None => {
                return Result::Err(field_error());
            },
        };
        let remote_address = match get_string_field(j, "remote_address") {
            Option::Some(s) => s,
            Option::None => {
                return Result::Err(field_error());
            },
        };
        let tcp_port = match get_port_field(j, "tcp_port") {
            Option::Some(p) => p,
            Option::None => {
                return Result::Err(field_error());
            },
        };
        let http_port = match get_port_field(j, "http_port") {
            Option::Some(p) => p,
            Option::None => {
                return Result::Err(field_error());
            },
        };
        let version = match get_string_field(j, "version") {
            Option::Some(s) => s,
            Option::None => {
                return Result::Err(field_error());
            },
        };
        Result::Ok(
            Producer { broadcast_address, hostname, remote_address, tcp_port, http_port, version },
        )
    }
}

/// Collects a producer array: exactly `spec_producers` of the elements.
#[verifier::loop_isolation(false)]
fn parse_producers(items: &Vec<Json>) -> (r: Result<Vec<Producer>, Error>)
    ensures
        r matches Ok(out) ==> spec_producers(items@) == Option::Some(out@),
        r matches Err(e) ==> spec_producers(items@) is None && (e matches Error::JsonError(m)
            && m@ == "missing or ill-typed field"@),
{
    let mut out: Vec<Producer> = Vec::new();
    let n = items.len();
    let mut i: usize = 0;
    proof {
        assert(items@.skip(0) =~= items@);
    }
    while i < n
        invariant
            0 <= i <= n,
            n == items@.len(),
            out@.len() == i,
            spec_producers(items@) == (match spec_producers(items@.skip(i as int)) {
                Option::Some(tail) => Option::Some(out@ + tail),
                Option::None => Option::<Seq<Producer>>::None,
            }),
        decreases n - i,
    {
        proof {
            assert(items@.skip(i as int)[0] == items@[i as int]);
            assert(items@.skip(i as int).drop_first() =~= items@.skip(i as int + 1));
        }
        match Producer::from_json(&items[i]) {
            Result::Ok(p) => {
                let ghost pre = out@;
                let ghost pv = p;
                out.push(p);
                proof {
                    match spec_producers(items@.skip(i as int + 1)) {
                        Option::Some(tail) => {
                            assert(out@ + tail =~= pre + (seq![pv] + tail));
                        },
                        Option::None => {},
                    }
                }
            },
            Result::Err(e) => {
                return Result::Err(e);
            },
        }
        i = i + 1;
    }
    proof {
        assert(items@.skip(n as int) =~= Seq::<Json>::empty());
        assert(out@ + Seq::<Producer>::empty() =~= out@);
    }
    Result::Ok(out)
}

impl Node {
    /// Reads one node entry out of a parsed document: the producer fields
    /// plus its tombstones and topics, exactly as `spec_node_matches` pins
    /// them.
    pub fn from_json(j: &Json) -> (r: Result<Node, Error>)
        ensures
            r matches Ok(n) ==> spec_node_ok(*j) && spec_node_matches(*j, n),
            r matches Err(e) ==> !spec_node_ok(*j) && (e matches Error::JsonError(m) && m@
                == "missing or ill-typed field"@),
    {
        let base = match Producer::from_json(j) {
            Result::Ok(p) => p,
            Result::Err(e) => {
                return Result::Err(e);
            },
        };
        let tombstones = match get_array_field(j, "tombstones") {
            Option::Some(items) => match parse_bools(items) {
                Result::Ok(a) => a,
                Result::Err(e) => {
                    return Result::Err(e);
                },
            },
            Option::None => {
                return Result::Err(field_error());
            },
        };
        let topics = match get_array_field(j, "topics") {
            Option::Some(items) => match parse_strings(items) {
                Result::Ok(a) => a,
                Result::Err(e) => {
                    return Result::Err(e);
                },
            },
            Option::None => {
                return Result::Err(field_error());
            },
        };
        Result::Ok(
            Node {
                broadcast_address: base.broadcast_address,
                hostname: base.hostname,
                remote_address: base.remote_address,
                tcp_port: base.tcp_port,
                http_port: base.http_port,
                version: base.version,
                tombstones,
                topics,
            },
        )
    }

    /// The `node` query parameter of a tombstone request:
    /// `<broadcast_address>:<http_port>`.
    pub fn tombstone_param(&self) -> (r: String)
        ensures
            r@ == self.broadcast_address@ + ":"@ + dec_chars(self.http_port as nat),
    {
        let mut s = self.broadcast_address.clone();
        s.append(":");
        let digits = dec_string(self.http_port as u64);
        s.append(digits.as_str());
        s
    }
}

impl LookupResponse {
    /// Parses a lookup reply from its JSON text: exactly the channel and
    /// producer lists the text's document carries.
    pub fn parse(text: &str) -> (r: Result<LookupResponse, Error>)
        ensures
            ({
                let doc = json_doc_of(text@);
                match r {
                    Result::Ok(lr) => doc matches Some(d) && (spec_array_field(d, "channels"@)
                        matches Some(ch) && spec_strings(ch) == Option::Some(lr.channels@)) && (
                    spec_array_field(d, "producers"@) matches Some(pr) && spec_producers(pr)
                        == Option::Some(lr.producers@)),
                    Result::Err(e) => e is JsonError && match doc {
                        Option::Some(d) => !spec_lookup_reply_ok(d),
                        Option::None => true,
                    },
                }
            }),
    {
        let d = match parse_json_doc(text) {
            Option::Some(d) => d,
            Option::None => {
                return Result::Err(body_error());
            },
        };
        let channels = match get_array_field(&d, "channels") {
            Option::Some(items) => match parse_strings(items) {
                Result::Ok(a) => a,
                Result::Err(e) => {
                    return Result::Err(e);
                },
            },
            Option::None => {
                return Result::Err(field_error());
            },
        };
        let producers = match get_array_field(&d, "producers") {
            Option::Some(items) => match parse_producers(items) {
                Result::Ok(a) => a,
                Result::Err(e) => {
                    return Result::Err(e);
                },
            },
            Option::None => {
                return Result::Err(field_error());
            },
        };
        Result::Ok(LookupResponse { channels, producers })
    }
}

impl TopicsResponse {
    /// Parses a topics reply from its JSON text: exactly the topics list
    /// the text's document carries.
    pub fn parse(text: &str) -> (r: Result<TopicsResponse, Error>)
        ensures
            ({
                let doc = json_doc_of(text@);
                match r {
                    Result::Ok(t) => doc matches Some(d) && (spec_array_field(d, "topics"@)
                        matches Some(items) && spec_strings(items) == Option::Some(t.topics@)),
                    Result::Err(e) => e is JsonError && match doc {
                        Option::Some(d) => !(spec_array_field(d, "topics"@) matches Some(items)
                            && spec_strings(items) is Some),
                        Option::None => true,
                    },
                }
            }),
    {
        let d = match parse_json_doc(text) {
            Option::Some(d) => d,
            Option::None => {
                return Result::Err(body_error());
            },
        };
        match get_array_field(&d, "topics") {
            Option::Some(items) => match parse_strings(items) {
                Result::Ok(topics) => Result::Ok(TopicsResponse { topics }),
                Result::Err(e) => Result::Err(e),
            },
            Option::None => Result::Err(field_error()),
        }
    }
}

impl ChannelsResponse {
    /// Parses a channels reply from its JSON text: exactly the channels
    /// list the text's document carries.
    pub fn parse(text: &str) -> (r: Result<ChannelsResponse, Error>)
        ensures
            ({
                let doc = json_doc_of(text@);
                match r {
                    Result::Ok(c) => doc matches Some(d) && (spec_array_field(d, "channels"@)
                        matches Some(items) && spec_strings(items) == Option::Some(c.channels@)),
                    Result::Err(e) => e is JsonError && match doc {
                        Option::Some(d) => !(spec_array_field(d, "channels"@) matches Some(items)
                            && spec_strings(items) is Some),
                        Option::None => true,
                    },
                }
            }),
    {
        let d = match parse_json_doc(text) {
            Option::Some(d) => d,
            Option::None => {
                return Result::Err(body_error());
            },
        };
        match get_array_field(&d, "channels") {
            Option::Some(items) => match parse_strings(items) {
                Result::Ok(channels) => Result::Ok(ChannelsResponse { channels }),
                Result::Err(e) => Result::Err(e),
            },
            Option::None => Result::Err(field_error()),
        }
    }
}

impl NodesResponse {
    /// Parses a nodes reply from its JSON text: one node per element of the
    /// producers array, each pinned by `spec_node_matches`.
    #[verifier::loop_isolation(false)]
    pub fn parse(text: &str) -> (r: Result<NodesResponse, Error>)
        ensures
            ({
                let doc = json_doc_of(text@);
                match r {
                    Result::Ok(nr) => doc matches Some(d) && (spec_array_field(d, "producers"@)
                        matches Some(items) && nr.producers@.len() == items.len() && (forall|
                        k: int,
                    |
                        0 <= k < items.len() ==> spec_node_matches(
                            items[k],
                            #[trigger] nr.producers@[k],
                        ))),
                    Result::Err(e) => e is JsonError && match doc {
                        Option::Some(d) => !(spec_array_field(d, "producers"@) matches Some(items)
                            && spec_nodes_ok(items)),
                        Option::None => true,
                    },
                }
            }),
    {
        let d = match parse_json_doc(text) {
            Option::Some(d) => d,
            Option::None => {
                return Result::Err(body_error());
            },
        };
        let items = match get_array_field(&d, "producers") {
            Option::Some(items) => items,
            Option::None => {
                return Result::Err(field_error());
            },
        };
        let mut out: Vec<Node> = Vec::new();
        let n = items.len();
        let mut i: usize = 0;
        while i < n
            invariant
                0 <= i <= n,
                n == items@.len(),
                out@.len() == i,
                forall|k: int| 0 <= k < i ==> spec_node_ok(#[trigger] items@[k]),
                forall|k: int| 0 <= k < i ==> spec_node_matches(items@[k], #[trigger] out@[k]),
            decreases n - i,
        {
            match Node::from_json(&items[i]) {
                Result::Ok(node) => out.push(node),
                Result::Err(e) => {
                    proof {
                        assert(0 <= i < items@.len() && !spec_node_ok(items@[i as int]));
                        assert(!spec_nodes_ok(items@));
                    }
                    return Result::Err(e);
                },
            }
            i = i + 1;
        }
        Result::Ok(NodesResponse { producers: out })
    }
}

impl InfoResponse {
    /// Parses an info reply from its JSON text: exactly the version string
    /// the text's document carries.
    pub fn parse(text: &str) -> (r: Result<InfoResponse, Error>)
        ensures
            ({
                let doc = json_doc_of(text@);
                match r {
                    Result::Ok(i) => doc matches Some(d) && spec_string_field(d, "version"@)
                        == Option::Some(i.version),
                    Result::Err(e) => e is JsonError && match doc {
                        Option::Some(d) => spec_string_field(d, "version"@) is None,
                        Option::None => true,
                    },
                }
            }),
    {
        let d = match parse_json_doc(text) {
            Option::Some(d) => d,
            Option::None => {
                return Result::Err(body_error());
            },
        };
        match get_string_field(&d, "version") {
            Option::Some(version) => Result::Ok(InfoResponse { version }),
            Option::None => Result::Err(field_error()),
        }
    }
}

} // verus!
