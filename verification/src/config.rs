//! Client configuration and its rendering to the IDENTIFY handshake JSON.
//!
//! Durations are carried as integer milliseconds, exactly as they are sent.
//! TLS is rendered as a single boolean (true iff configured); compression as
//! `"snappy":true`, or `"deflate":true` with its level, or both false when
//! disabled. The auth secret is never rendered.

use vstd::prelude::*;
use crate::command::{lit, Command};
use crate::error::Error;
use crate::wire::{dec_bytes, push_dec, push_str_bytes};

verus! {

use vstd::string::StringSliceAdditionalSpecFns;

/// TLS settings for the upgraded transport.
#[derive(Debug, Clone)]
pub struct TlsConfig {
    pub domain: String,
    /// Path to a file holding the root CA.
    pub root_ca_file: Option<String>,
    /// Path to a file holding the certificate's public key.
    pub cert_file: Option<String>,
    /// Path to a file holding the certificate's private key.
    pub key_file: Option<String>,
    /// Whether to skip verification of server certificates.
    pub insecure_skip_verify: bool,
}

/// The compression the client offers, at most one kind.
#[derive(Debug, Clone, PartialEq, Eq)]
pub enum Compress {
    Disabled,
    Snappy,
    Deflate { level: u32 },
}

impl Compress {
    pub fn is_enabled(&self) -> (r: bool)
        ensures
            r == !(self is Disabled),
    {
        match self {
            Compress::Disabled => false,
            _ => true,
        }
    }

    pub fn is_deflate(&self) -> (r: bool)
        ensures
            r == self matches Compress::Deflate { .. },
    {
        match self {
            Compress::Deflate { .. } => true,
            _ => false,
        }
    }

    pub fn is_snappy(&self) -> (r: bool)
        ensures
            r == (self is Snappy),
    {
        match self {
            Compress::Snappy => true,
            _ => false,
        }
    }
}

impl Default for Compress {
    fn default() -> (c: Compress)
        ensures
            c is Disabled,
    {
        Compress::Disabled
    }
}

/// Client configuration. Duration-valued settings are in milliseconds.
#[derive(Debug, Clone)]
pub struct Config {
    pub client_id: String,
    pub hostname: String,
    pub user_agent: String,
    pub tls_v1: Option<TlsConfig>,
    pub compress: Compress,
    /// Time between broker heartbeats, in milliseconds.
    pub heartbeat_interval: u64,
    /// How often a consumer may attempt a message before giving up.
    pub max_attempts: u16,
    /// Maximum number of messages in flight.
    pub max_in_flight: usize,
    /// The broker-side write buffer, in bytes.
    pub output_buffer_size: usize,
    /// The broker-side buffer flush timeout, in milliseconds.
    pub output_buffer_timeout: u64,
    /// The broker-side message timeout, in milliseconds.
    pub msg_timeout: u64,
    pub sample_rate: u8,
    /// Secret for broker authentication; never rendered into IDENTIFY.
    pub auth_secret: Option<String>,
    pub feature_negotiation: bool,
}

/// One lowercase hex digit.
pub open spec fn hex_digit(n: int) -> u8
    recommends
        0 <= n < 16,
{
    if n < 10 {
        (0x30 + n) as u8
    } else {
        (0x57 + n) as u8
    }
}

/// How one byte stands inside a JSON string: quotes and backslashes get a
/// backslash, control bytes become `\u00XX`, all else passes through.
pub open spec fn escape_byte(b: u8) -> Seq<u8> {
    if b == 0x22 {
        seq![0x5cu8, 0x22u8]
    } else if b == 0x5c {
        seq![0x5cu8, 0x5cu8]
    } else if b < 0x20 {
        seq![0x5cu8, 0x75u8, 0x30u8, 0x30u8, hex_digit(b as int / 16), hex_digit(b as int % 16)]
    } else {
        seq![b]
    }
}

/// A byte sequence escaped for a JSON string.
pub open spec fn json_escaped(s: Seq<u8>) -> Seq<u8>
    decreases s.len(),
{
    if s.len() == 0 {
        Seq::empty()
    } else {
        escape_byte(s[0]) + json_escaped(s.drop_first())
    }
}

/// A JSON string: the escaped UTF-8 of the text, between quotes.
pub open spec fn json_string(s: Seq<char>) -> Seq<u8> {
    lit("\"") + json_escaped(vstd::utf8::encode_utf8(s)) + lit("\"")
}

/// A JSON boolean.
pub open spec fn json_bool(b: bool) -> Seq<u8> {
    if b {
        lit("true")
    } else {
        lit("false")
    }
}

/// The compression entries of the IDENTIFY object.
pub open spec fn spec_compress_fields(c: Compress) -> Seq<u8> {
    match c {
        Compress::Disabled => lit("\"snappy\":false,\"deflate\":false"),
        Compress::Snappy => lit("\"snappy\":true"),
        Compress::Deflate { level } => lit("\"deflate\":true,\"deflate_level\":") + dec_bytes(
            level as nat,
        ),
    }
}

/// The IDENTIFY JSON a configuration renders to, byte for byte.
#[verifier::opaque]
pub open spec fn spec_identify_json(c: Config) -> Seq<u8> {
    lit("{\"client_id\":") + json_string(c.client_id@) + lit(",\"hostname\":") + json_string(
        c.hostname@,
    ) + lit(",\"user_agent\":") + json_string(c.user_agent@) + lit(",\"tls_v1\":") + json_bool(
        c.tls_v1 is Some,
    ) + lit(",") + spec_compress_fields(c.compress) + lit(",\"heartbeat_interval\":") + dec_bytes(
        c.heartbeat_interval as nat,
    ) + lit(",\"max_attempts\":") + dec_bytes(c.max_attempts as nat) + lit(",\"max_in_flight\":")
        + dec_bytes(c.max_in_flight as nat) + lit(",\"output_buffer_size\":") + dec_bytes(
        c.output_buffer_size as nat,
    ) + lit(",\"output_buffer_timeout\":") + dec_bytes(c.output_buffer_timeout as nat) + lit(
        ",\"msg_timeout\":",
    ) + dec_bytes(c.msg_timeout as nat) + lit(",\"sample_rate\":") + dec_bytes(c.sample_rate as nat)
        + lit(",\"feature_negotiation\":") + json_bool(c.feature_negotiation) + lit("}")
}

/// Escaping a longer text appends the escape of the last byte.
proof fn lemma_json_escaped_push(s: Seq<u8>, b: u8)
    ensures
        json_escaped(s.push(b)) == json_escaped(s) + escape_byte(b),
    decreases s.len(),
{
    if s.len() == 0 {
        assert(s.push(b).drop_first() =~= s);
        assert(json_escaped(s.push(b)) =~= escape_byte(b));
        assert(json_escaped(s) + escape_byte(b) =~= escape_byte(b));
    } else {
        assert(s.push(b).drop_first() =~= s.drop_first().push(b));
        lemma_json_escaped_push(s.drop_first(), b);
        assert(json_escaped(s.push(b)) =~= json_escaped(s) + escape_byte(b));
    }
}

/// Appends the JSON-escaped UTF-8 of `s`.
fn push_json_escaped(buf: &mut Vec<u8>, s: &str)
    ensures
        final(buf)@ == old(buf)@ + json_escaped(s.spec_bytes()),
{
    let bytes = s.as_bytes();
    let n = bytes.len();
    let ghost base = buf@;
    let mut i: usize = 0;
    proof {
        assert(bytes@.take(0) =~= Seq::<u8>::empty());
    }
    while i < n
        invariant
            0 <= i <= n,
            n == bytes@.len(),
            bytes@ == s.spec_bytes(),
            buf@ == base + json_escaped(bytes@.take(i as int)),
        decreases n - i,
    {
        let b = bytes[i];
        if b == 0x22 {
            buf.push(0x5c);
            buf.push(0x22);
        } else if b == 0x5c {
            buf.push(0x5c);
            buf.push(0x5c);
        } else if b < 0x20 {
            buf.push(0x5c);
            buf.push(0x75);
            buf.push(0x30);
            buf.push(0x30);
            let hi = b / 16;
            let lo = b % 16;
            buf.push(if hi < 10 { 0x30 + hi } else { 0x57 + hi });
            buf.push(if lo < 10 { 0x30 + lo } else { 0x57 + lo });
        } else {
            buf.push(b);
        }
        proof {
            lemma_json_escaped_push(bytes@.take(i as int), bytes@[i as int]);
            assert(bytes@.take(i as int).push(bytes@[i as int]) =~= bytes@.take(i + 1));
            assert(buf@ =~= base + json_escaped(bytes@.take(i + 1)));
        }
        i = i + 1;
    }
    proof {
        assert(bytes@.take(n as int) =~= bytes@);
    }
}

/// Appends a JSON string: quote, escaped text, quote.
fn push_json_string(buf: &mut Vec<u8>, s: &str)
    ensures
        final(buf)@ == old(buf)@ + json_string(s@),
{
    push_str_bytes(buf, "\"");
    push_json_escaped(buf, s);
    push_str_bytes(buf, "\"");
    assert(final(buf)@ =~= old(buf)@ + json_string(s@));
}

/// Appends `true` or `false`.
fn push_json_bool(buf: &mut Vec<u8>, b: bool)
    ensures
        final(buf)@ == old(buf)@ + json_bool(b),
{
    if b {
        push_str_bytes(buf, "true");
    } else {
        push_str_bytes(buf, "false");
    }
}

/// Relies on hostname::get: the machine's hostname. The result depends on
/// the environment, so nothing is promised of it.
#[verifier::external_body]
fn host_name() -> Option<String> {
    match hostname::get() {
        Ok(h) => h.into_string().ok(),
        Err(_) => None,
    }
}

impl Config {
    /// Renders this configuration to its IDENTIFY JSON bytes.
    #[verifier::rlimit(100)]
    pub fn identify_json(&self) -> (r: Vec<u8>)
        ensures
            r@ == spec_identify_json(*self),
    {
        let mut buf: Vec<u8> = Vec::new();
        push_str_bytes(&mut buf, "{\"client_id\":");
        push_json_string(&mut buf, self.client_id.as_str());
        push_str_bytes(&mut buf, ",\"hostname\":");
        push_json_string(&mut buf, self.hostname.as_str());
        push_str_bytes(&mut buf, ",\"user_agent\":");
        push_json_string(&mut buf, self.user_agent.as_str());
        push_str_bytes(&mut buf, ",\"tls_v1\":");
        push_json_bool(&mut buf, self.tls_v1.is_some());
        push_str_bytes(&mut buf, ",");
        match &self.compress {
            Compress::Disabled => {
                push_str_bytes(&mut buf, "\"snappy\":false,\"deflate\":false");
            },
            Compress::Snappy => {
                push_str_bytes(&mut buf, "\"snappy\":true");
            },
            Compress::Deflate { level } => {
                push_str_bytes(&mut buf, "\"deflate\":true,\"deflate_level\":");
                push_dec(&mut buf, *level as u64);
            },
        }
        push_str_bytes(&mut buf, ",\"heartbeat_interval\":");
        push_dec(&mut buf, self.heartbeat_interval);
        push_str_bytes(&mut buf, ",\"max_attempts\":");
        push_dec(&mut buf, self.max_attempts as u64);
        push_str_bytes(&mut buf, ",\"max_in_flight\":");
        push_dec(&mut buf, self.max_in_flight as u64);
        push_str_bytes(&mut buf, ",\"output_buffer_size\":");
        push_dec(&mut buf, self.output_buffer_size as u64);
        push_str_bytes(&mut buf, ",\"output_buffer_timeout\":");
        push_dec(&mut buf, self.output_buffer_timeout);
        push_str_bytes(&mut buf, ",\"msg_timeout\":");
        push_dec(&mut buf, self.msg_timeout);
        push_str_bytes(&mut buf, ",\"sample_rate\":");
        push_dec(&mut buf, self.sample_rate as u64);
        push_str_bytes(&mut buf, ",\"feature_negotiation\":");
        push_json_bool(&mut buf, self.feature_negotiation);
        push_str_bytes(&mut buf, "}");
        proof {
            reveal(spec_identify_json);
            assert(buf@ =~= spec_identify_json(*self));
        }
        buf
    }

    /// The IDENTIFY command carrying this configuration's JSON.
    pub fn identify(&self) -> (r: Result<Command, Error>)
        ensures
            r matches Ok(cmd) && cmd matches Command::Identify(j) && j@ == spec_identify_json(
                *self,
            ),
    {
        Result::Ok(Command::Identify(self.identify_json()))
    }
}

impl Default for Config {
    /// The default configuration; the hostname comes from the machine and
    /// falls back to `unknown`.
    fn default() -> (c: Config)
        ensures
            c.client_id@ == "nsq_in_rust"@,
            c.user_agent@ == crate::USER_AGENT@,
            c.tls_v1 is None,
            c.compress is Disabled,
            c.heartbeat_interval == 30000,
            c.max_attempts == 5,
            c.max_in_flight == 8,
            c.output_buffer_size == 16384,
            c.output_buffer_timeout == 250,
            c.msg_timeout == 5000,
            c.sample_rate == 0,
            c.auth_secret is None,
            c.feature_negotiation,
    {
        let hostname = match host_name() {
            Option::Some(h) => h,
            Option::None => "unknown".to_owned(),
        };
        Config {
            client_id: "nsq_in_rust".to_owned(),
            hostname,
            user_agent: crate::USER_AGENT.to_owned(),
            tls_v1: Option::None,
            compress: Compress::Disabled,
            heartbeat_interval: 30000,
            max_attempts: 5,
            max_in_flight: 8,
            output_buffer_size: 16384,
            output_buffer_timeout: 250,
            msg_timeout: 5000,
            sample_rate: 0,
            auth_secret: Option::None,
            feature_negotiation: true,
        }
    }
}

} // verus!
