//! The broker's replies during the handshake: the IDENTIFY capabilities
//! object and the AUTH reply.
//!
//! Both arrive as JSON texts. A text parses to the library's [`Json`] tree
//! behind the trusted boundary; which record a tree carries is defined here
//! by spec functions, and the parsers are proved to return exactly that
//! record.

use vstd::prelude::*;
use crate::error::Error;
use crate::json::{get_bool_field, get_field, get_i64_field, get_string_field, get_u64_field,
    json_doc_of, parse_json_doc, spec_bool_field, spec_field, spec_i64_field, spec_string_field,
    spec_u64_field, Json};

verus! {

/// The capabilities the broker advertises in its IDENTIFY reply.
#[derive(Debug, Clone, PartialEq, Eq)]
pub struct IdentifyResponse {
    pub max_rdy_count: i64,
    pub auth_required: bool,
    pub deflate: bool,
    pub deflate_level: u32,
    pub max_deflate_level: u64,
    pub max_msg_timeout: u64,
    pub msg_timeout: u64,
    pub output_buffer_size: i64,
    pub output_buffer_timeout: u64,
    pub sample_rate: i32,
    pub snappy: bool,
    pub tls_v1: bool,
    pub version: String,
}

impl Default for IdentifyResponse {
    /// The all-defaults capabilities, used when the broker answers IDENTIFY
    /// with a bare `OK` (feature negotiation off): no TLS, no compression,
    /// no auth.
    fn default() -> (r: IdentifyResponse)
        ensures
            !r.auth_required,
            !r.deflate,
            !r.snappy,
            !r.tls_v1,
            r.deflate_level == 0,
            r.version@ == Seq::<char>::empty(),
    {
        IdentifyResponse {
            max_rdy_count: 0,
            auth_required: false,
            deflate: false,
            deflate_level: 0,
            max_deflate_level: 0,
            max_msg_timeout: 0,
            msg_timeout: 0,
            output_buffer_size: 0,
            output_buffer_timeout: 0,
            sample_rate: 0,
            snappy: false,
            tls_v1: false,
            version: String::new(),
        }
    }
}

/// The broker's reply to a successful AUTH.
#[derive(Debug, Clone, PartialEq, Eq)]
pub struct AuthResponse {
    pub identify: String,
    pub identify_url: Option<String>,
    pub permission_count: i64,
}

/// A missing or ill-typed field, as a JSON error.
pub(crate) fn field_error() -> (e: Error)
    ensures
        e matches Error::JsonError(m) && m@ == "missing or ill-typed field"@,
{
    Error::JsonError("missing or ill-typed field".to_owned())
}

/// A text that is not JSON at all, as a JSON error.
pub(crate) fn body_error() -> (e: Error)
    ensures
        e matches Error::JsonError(m) && m@ == "invalid json body"@,
{
    Error::JsonError("invalid json body".to_owned())
}

/// The capabilities a JSON document carries, if every field is present with
/// its type and in range.
pub open spec fn spec_identify_caps(j: Json) -> Option<IdentifyResponse> {
    let max_rdy_count = spec_i64_field(j, "max_rdy_count"@);
    let auth_required = spec_bool_field(j, "auth_required"@);
    let deflate = spec_bool_field(j, "deflate"@);
    let deflate_level = spec_u64_field(j, "deflate_level"@);
    let max_deflate_level = spec_u64_field(j, "max_deflate_level"@);
    let max_msg_timeout = spec_u64_field(j, "max_msg_timeout"@);
    let msg_timeout = spec_u64_field(j, "msg_timeout"@);
    let output_buffer_size = spec_i64_field(j, "output_buffer_size"@);
    let output_buffer_timeout = spec_u64_field(j, "output_buffer_timeout"@);
    let sample_rate = spec_i64_field(j, "sample_rate"@);
    let snappy = spec_bool_field(j, "snappy"@);
    let tls_v1 = spec_bool_field(j, "tls_v1"@);
    let version = spec_string_field(j, "version"@);
    if max_rdy_count is Some && auth_required is Some && deflate is Some && (
    deflate_level matches Some(l) && l <= u32::MAX) && max_deflate_level is Some
        && max_msg_timeout is Some && msg_timeout is Some && output_buffer_size is Some
        && output_buffer_timeout is Some && (sample_rate matches Some(sr) && i32::MIN <= sr
        <= i32::MAX) && snappy is Some && tls_v1 is Some && version is Some {
        Option::Some(
            IdentifyResponse {
                max_rdy_count: max_rdy_count.unwrap(),
                auth_required: auth_required.unwrap(),
                deflate: deflate.unwrap(),
                deflate_level: deflate_level.unwrap() as u32,
                max_deflate_level: max_deflate_level.unwrap(),
                max_msg_timeout: max_msg_timeout.unwrap(),
                msg_timeout: msg_timeout.unwrap(),
                output_buffer_size: output_buffer_size.unwrap(),
                output_buffer_timeout: output_buffer_timeout.unwrap(),
                sample_rate: sample_rate.unwrap() as i32,
                snappy: snappy.unwrap(),
                tls_v1: tls_v1.unwrap(),
                version: version.unwrap(),
            },
        )
    } else {
        Option::None
    }
}

impl IdentifyResponse {
    /// Reads the capabilities out of a parsed document: exactly the record
    /// `spec_identify_caps` defines, or a JSON error where it defines none.
    #[verifier::rlimit(60)]
    pub fn from_json(j: &Json) -> (r: Result<IdentifyResponse, Error>)
        ensures
            r matches Ok(ir) ==> spec_identify_caps(*j) == Option::Some(ir),
            r matches Err(e) ==> spec_identify_caps(*j) is None && (e matches Error::JsonError(m)
                && m@ == "missing or ill-typed field"@),
    {
        let max_rdy_count = match get_i64_field(j, "max_rdy_count") {
            Option::Some(n) => n,
            Option::None => {
                return Result::Err(field_error());
            },
        };
        let auth_required = match get_bool_field(j, "auth_required") {
            Option::Some(b) => b,
            Option::None => {
                return Result::Err(field_error());
            },
        };
        let deflate = match get_bool_field(j, "deflate") {
            Option::Some(b) => b,
            Option::None => {
                return Result::Err(field_error());
            },
        };
        let deflate_level_raw = match get_u64_field(j, "deflate_level") {
            Option::Some(n) => n,
            Option::None => {
                return Result::Err(field_error());
            },
        };
        if deflate_level_raw > u32::MAX as u64 {
            return Result::Err(field_error());
        }
        let max_deflate_level = match get_u64_field(j, "max_deflate_level") {
            Option::Some(n) => n,
            Option::None => {
                return Result::Err(field_error());
            },
        };
        let max_msg_timeout = match get_u64_field(j, "max_msg_timeout") {
            Option::Some(n) => n,
            Option::None => {
                return Result::Err(field_error());
            },
        };
        let msg_timeout = match get_u64_field(j, "msg_timeout") {
            Option::Some(n) => n,
            Option::None => {
                return Result::Err(field_error());
            },
        };
        let output_buffer_size = match get_i64_field(j, "output_buffer_size") {
            Option::Some(n) => n,
            Option::None => {
                return Result::Err(field_error());
            },
        };
        let output_buffer_timeout = match get_u64_field(j, "output_buffer_timeout") {
            Option::Some(n) => n,
            Option::None => {
                return Result::Err(field_error());
            },
        };
        let sample_rate_raw = match get_i64_field(j, "sample_rate") {
            Option::Some(n) => n,
            Option::None => {
                return Result::Err(field_error());
            },
        };
        if sample_rate_raw > i32::MAX as i64 || sample_rate_raw < i32::MIN as i64 {
            return Result::Err(field_error());
        }
        let snappy = match get_bool_field(j, "snappy") {
            Option::Some(b) => b,
            Option::None => {
                return Result::Err(field_error());
            },
        };
        let tls_v1 = match get_bool_field(j, "tls_v1") {
            Option::Some(b) => b,
            Option::None => {
                return Result::Err(field_error());
            },
        };
        let version = match get_string_field(j, "version") {
            Option::Some(s) => s,
            Option::None => {
                return Result::Err(field_error());
            },
        };
        Result::Ok(
            IdentifyResponse {
                max_rdy_count,
                auth_required,
                deflate,
                deflate_level: deflate_level_raw as u32,
                max_deflate_level,
                max_msg_timeout,
                msg_timeout,
                output_buffer_size,
                output_buffer_timeout,
                sample_rate: sample_rate_raw as i32,
                snappy,
                tls_v1,
                version,
            },
        )
    }

    /// Parses an IDENTIFY reply from its JSON text: exactly the record the
    /// text's document carries.
    pub fn parse(text: &str) -> (r: Result<IdentifyResponse, Error>)
        ensures
            ({
                let doc = json_doc_of(text@);
                match r {
                    Result::Ok(ir) => doc matches Some(d) && spec_identify_caps(d)
                        == Option::Some(ir),
                    Result::Err(e) => match doc {
                        Option::Some(d) => spec_identify_caps(d) is None && (
                        e matches Error::JsonError(m) && m@ == "missing or ill-typed field"@),
                        Option::None => e matches Error::JsonError(m) && m@
                            == "invalid json body"@,
                    },
                }
            }),
    {
        match parse_json_doc(text) {
            Option::Some(d) => IdentifyResponse::from_json(&d),
            Option::None => Result::Err(body_error()),
        }
    }
}

/// An optional string field, as the AUTH reply allows: absent or null is
/// no URL; any other non-string refuses the reply.
pub open spec fn spec_opt_string_field(j: Json, key: Seq<char>) -> Option<Option<String>> {
    match spec_field(j, key) {
        Option::None => Option::Some(Option::None),
        Option::Some(Json::Null) => Option::Some(Option::None),
        Option::Some(Json::Str(s)) => Option::Some(Option::Some(s)),
        Option::Some(_) => Option::None,
    }
}

/// The AUTH reply a JSON document carries, if well-typed.
pub open spec fn spec_auth_reply(j: Json) -> Option<AuthResponse> {
    let identify = spec_string_field(j, "identify"@);
    let identify_url = spec_opt_string_field(j, "identify_url"@);
    let permission_count = spec_i64_field(j, "permission_count"@);
    if identify is Some && identify_url is Some && permission_count is Some {
        Option::Some(
            AuthResponse {
                identify: identify.unwrap(),
                identify_url: identify_url.unwrap(),
                permission_count: permission_count.unwrap(),
            },
        )
    } else {
        Option::None
    }
}

impl AuthResponse {
    /// Reads the AUTH reply out of a parsed document: exactly the record
    /// `spec_auth_reply` defines, or a JSON error where it defines none.
    pub fn from_json(j: &Json) -> (r: Result<AuthResponse, Error>)
        ensures
            r matches Ok(a) ==> spec_auth_reply(*j) == Option::Some(a),
            r matches Err(e) ==> spec_auth_reply(*j) is None && (e matches Error::JsonError(m)
                && m@ == "missing or ill-typed field"@),
    {
        let identify = match get_string_field(j, "identify") {
            Option::Some(s) => s,
            Option::None => {
                return Result::Err(field_error());
            },
        };
        let identify_url = match get_field(j, "identify_url") {
            Option::Some(Json::Null) => Option::None,
            Option::Some(Json::Str(s)) => Option::Some(s.clone()),
            Option::Some(_) => {
                return Result::Err(field_error());
            },
            Option::None => Option::None,
        };
        let permission_count = match get_i64_field(j, "permission_count") {
            Option::Some(n) => n,
            Option::None => {
                return Result::Err(field_error());
            },
        };
        Result::Ok(AuthResponse { identify, identify_url, permission_count })
    }

    /// Parses an AUTH reply from its JSON text: exactly the record the
    /// text's document carries.
    pub fn parse(text: &str) -> (r: Result<AuthResponse, Error>)
        ensures
            ({
                let doc = json_doc_of(text@);
                match r {
                    Result::Ok(a) => doc matches Some(d) && spec_auth_reply(d) == Option::Some(a),
                    Result::Err(e) => match doc {
                        Option::Some(d) => spec_auth_reply(d) is None && (
                        e matches Error::JsonError(m) && m@ == "missing or ill-typed field"@),
                        Option::None => e matches Error::JsonError(m) && m@
                            == "invalid json body"@,
                    },
                }
            }),
    {
        match parse_json_doc(text) {
            Option::Some(d) => AuthResponse::from_json(&d),
            Option::None => Result::Err(body_error()),
        }
    }
}

} // verus!
