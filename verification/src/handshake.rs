//! The connect handshake, as a pure state machine.
//!
//! The wire sequence is strictly ordered: V2 magic and IDENTIFY, one reply
//! (the capabilities JSON, or a bare `OK` when feature negotiation is off),
//! then an optional TLS upgrade consuming one `OK`, then an optional
//! compression upgrade consuming one `OK`, then AUTH where the broker
//! requires it. Any other frame aborts the connection. The machine decides
//! each step from plain values; the caller performs the writes, reads and
//! stream upgrades it asks for.

use vstd::prelude::*;
use crate::codec::{FrameView, NsqCodec, NsqFramed, RawResponse, RawResponseView};
use crate::command::{spec_encoded, Command};
use crate::config::{spec_identify_json, Config};
use crate::json::json_doc_of;
use crate::error::Error;
use crate::identify::{spec_auth_reply, spec_identify_caps, AuthResponse, IdentifyResponse};
use crate::wire::be32_bytes;

verus! {

use vstd::utf8::encode_utf8;

/// Where the handshake stands.
#[derive(Debug, Clone, PartialEq, Eq)]
pub enum HandshakeState {
    /// Nothing sent yet.
    Start,
    /// V2 and IDENTIFY written; one reply expected.
    AwaitIdentify,
    /// TLS installed; its confirming `OK` expected.
    AwaitTlsOk,
    /// Compression installed; its confirming `OK` expected.
    AwaitCompressOk,
    /// AUTH written; its reply expected.
    AwaitAuthReply,
    /// The connection is ready.
    Done,
    /// The handshake aborted.
    Failed,
}

/// What the caller must do next.
#[derive(Debug, PartialEq, Eq)]
pub enum HandshakeAction {
    /// Write these bytes to the current transport and read one frame.
    Send(Vec<u8>),
    /// Upgrade the transport to TLS, then read one frame through it.
    UpgradeTls,
    /// Wrap the transport in the Snappy layer, then read one frame.
    UpgradeSnappy,
    /// Wrap the transport in the Deflate layer at this level, then read one
    /// frame.
    UpgradeDeflate(u32),
    /// The handshake is complete: install the framing codec's heartbeat
    /// multiplexer and hand the connection out.
    Finish,
    /// Abort the connection with this error.
    Fail(Error),
}

/// The machine itself: the configuration it negotiates for, its state, and
/// what the broker has answered so far.
#[derive(Debug)]
pub struct Handshake {
    pub config: Config,
    pub state: HandshakeState,
    pub server: Option<IdentifyResponse>,
    pub auth: Option<AuthResponse>,
}

/// The configuration limits the wire format forces: the rendered IDENTIFY
/// JSON and the auth secret must fit a 32-bit length field.
pub open spec fn config_wf(c: Config) -> bool {
    &&& spec_identify_json(c).len() <= u32::MAX
    &&& (c.auth_secret matches Some(s) ==> encode_utf8(s@).len() <= u32::MAX)
}

/// States in which the broker's capabilities are already known.
pub open spec fn hs_wf(h: Handshake) -> bool {
    (h.state is AwaitTlsOk || h.state is AwaitCompressOk || h.state is AwaitAuthReply || h.state
        is Done) ==> h.server is Some
}

/// The authentication step: with auth required a missing secret aborts,
/// otherwise AUTH is sent; with no auth the handshake finishes.
pub open spec fn spec_auth_step(
    config: Config,
    ir: IdentifyResponse,
    action: HandshakeAction,
    st: HandshakeState,
) -> bool {
    if ir.auth_required {
        match config.auth_secret {
            Option::Some(secret) => (action matches HandshakeAction::Send(b) && b@ == spec_encoded(
                Command::Auth(secret),
            )) && st is AwaitAuthReply,
            Option::None => (action matches HandshakeAction::Fail(e) && (
            e matches Error::Auth(m) && m@ == "Required auth secret"@)) && st is Failed,
        }
    } else {
        action is Finish && st is Done
    }
}

/// The compression step: Snappy wins over Deflate; with neither, on to
/// authentication.
pub open spec fn spec_compress_step(
    config: Config,
    ir: IdentifyResponse,
    action: HandshakeAction,
    st: HandshakeState,
) -> bool {
    if ir.snappy {
        action is UpgradeSnappy && st is AwaitCompressOk
    } else if ir.deflate {
        (action matches HandshakeAction::UpgradeDeflate(l) && l == ir.deflate_level) && st
            is AwaitCompressOk
    } else {
        spec_auth_step(config, ir, action, st)
    }
}

/// What follows once the broker's capabilities are known: TLS first, then
/// compression, then authentication.
pub open spec fn spec_after_identify(
    config: Config,
    ir: IdentifyResponse,
    action: HandshakeAction,
    st: HandshakeState,
) -> bool {
    if ir.tls_v1 {
        if config.tls_v1 is Some {
            action is UpgradeTls && st is AwaitTlsOk
        } else {
            (action matches HandshakeAction::Fail(e) && e is TlsError) && st is Failed
        }
    } else {
        spec_compress_step(config, ir, action, st)
    }
}

/// An abort on a frame that has no place in the handshake.
pub open spec fn spec_protocol_fail(action: HandshakeAction, st: HandshakeState) -> bool {
    (action matches HandshakeAction::Fail(e) && (e matches Error::IoError(m) && m@
        == "unexpected frame during handshake"@)) && st is Failed
}

impl Handshake {
    /// A handshake about to start for this configuration.
    pub fn new(config: Config) -> (h: Handshake)
        ensures
            h.config == config,
            h.state is Start,
            h.server is None,
            h.auth is None,
    {
        Handshake { config, state: HandshakeState::Start, server: Option::None, auth: Option::None }
    }

    /// Opens the handshake: the V2 magic followed by the IDENTIFY command,
    /// to be written as one block.
    #[verifier::rlimit(100)]
    pub fn start(&mut self) -> (bytes: Vec<u8>)
        requires
            old(self).state is Start,
            config_wf(old(self).config),
        ensures
            final(self).state is AwaitIdentify,
            final(self).config == old(self).config,
            final(self).server == old(self).server,
            final(self).auth == old(self).auth,
            bytes@ == spec_encoded(Command::Version) + crate::command::lit("IDENTIFY\n")
                + be32_bytes(spec_identify_json(old(self).config).len() as u32)
                + spec_identify_json(old(self).config),
    {
        let mut codec = NsqCodec::new(self.config.feature_negotiation);
        let mut buf: Vec<u8> = Vec::new();
        let _ = codec.encode(Command::Version, &mut buf);
        let json = self.config.identify_json();
        let _ = codec.encode(Command::Identify(json), &mut buf);
        self.state = HandshakeState::AwaitIdentify;
        assert(buf@ =~= spec_encoded(Command::Version) + crate::command::lit("IDENTIFY\n")
            + be32_bytes(spec_identify_json(self.config).len() as u32) + spec_identify_json(
            self.config,
        ));
        buf
    }

    /// Feeds the machine the one frame read after its last action.
    ///
    /// In `AwaitIdentify` a JSON reply carries the capabilities and a bare
    /// `OK` (feature negotiation off) stands for all-defaults; the TLS and
    /// compression confirmations must be `OK`; the AUTH reply must be JSON
    /// or a broker error. Everything else aborts.
    pub fn on_frame(&mut self, frame: NsqFramed) -> (action: HandshakeAction)
        requires
            config_wf(old(self).config),
            hs_wf(*old(self)),
            old(self).state is AwaitIdentify || old(self).state is AwaitTlsOk || old(self).state
                is AwaitCompressOk || old(self).state is AwaitAuthReply,
        ensures
            final(self).config == old(self).config,
            hs_wf(*final(self)),
            old(self).state is AwaitIdentify ==> match frame@ {
                FrameView::Response(RawResponseView::Json(text)) => ({
                    let caps = match json_doc_of(text) {
                        Option::Some(d) => spec_identify_caps(d),
                        Option::None => Option::<IdentifyResponse>::None,
                    };
                    match caps {
                        Option::Some(ir) => final(self).server == Option::Some(ir)
                            && spec_after_identify(
                            old(self).config,
                            ir,
                            action,
                            final(self).state,
                        ),
                        Option::None => final(self).state is Failed && (
                        action matches HandshakeAction::Fail(e) && e is JsonError),
                    }
                }),
                FrameView::Response(RawResponseView::Okay) => final(self).server matches Some(ir)
                    && !ir.tls_v1 && !ir.snappy && !ir.deflate && !ir.auth_required && action
                    is Finish && final(self).state is Done,
                _ => spec_protocol_fail(action, final(self).state),
            },
            old(self).state is AwaitTlsOk ==> match frame@ {
                FrameView::Response(RawResponseView::Okay) => final(self).server == old(self).server && (old(self).server matches Some(ir) && spec_compress_step(
                    old(self).config,
                    ir,
                    action,
                    final(self).state,
                )),
                _ => spec_protocol_fail(action, final(self).state),
            },
            old(self).state is AwaitCompressOk ==> match frame@ {
                FrameView::Response(RawResponseView::Okay) => final(self).server == old(self).server && (old(self).server matches Some(ir) && spec_auth_step(
                    old(self).config,
                    ir,
                    action,
                    final(self).state,
                )),
                _ => spec_protocol_fail(action, final(self).state),
            },
            old(self).state is AwaitAuthReply ==> match frame@ {
                FrameView::Response(RawResponseView::Json(text)) => ({
                    let reply = match json_doc_of(text) {
                        Option::Some(d) => spec_auth_reply(d),
                        Option::None => Option::<AuthResponse>::None,
                    };
                    match reply {
                        Option::Some(a) => final(self).auth == Option::Some(a) && action is Finish
                            && final(self).state is Done && final(self).server == old(self).server,
                        Option::None => final(self).state is Failed && (
                        action matches HandshakeAction::Fail(e) && e is JsonError),
                    }
                }),
                FrameView::Error(ev) => (action matches HandshakeAction::Fail(e) && (
                e matches Error::NsqError(ne) && ne@ == ev)) && final(self).state is Failed,
                _ => spec_protocol_fail(action, final(self).state),
            },
    {
        match self.state {
            HandshakeState::AwaitIdentify => match frame {
                NsqFramed::Response(RawResponse::Json(text)) => {
                    match IdentifyResponse::parse(text.as_str()) {
                        Result::Ok(ir) => {
                            self.server = Option::Some(ir);
                            self.after_identify()
                        },
                        Result::Err(e) => {
                            self.state = HandshakeState::Failed;
                            HandshakeAction::Fail(e)
                        },
                    }
                },
                NsqFramed::Response(RawResponse::Okay) => {
                    self.server = Option::Some(IdentifyResponse::default());
                    self.after_identify()
                },
                _ => self.protocol_fail(),
            },
            HandshakeState::AwaitTlsOk => match frame {
                NsqFramed::Response(RawResponse::Okay) => self.compress_step(),
                _ => self.protocol_fail(),
            },
            HandshakeState::AwaitCompressOk => match frame {
                NsqFramed::Response(RawResponse::Okay) => self.auth_step(),
                _ => self.protocol_fail(),
            },
            HandshakeState::AwaitAuthReply => match frame {
                NsqFramed::Response(RawResponse::Json(text)) => {
                    match AuthResponse::parse(text.as_str()) {
                        Result::Ok(a) => {
                            self.auth = Option::Some(a);
                            self.state = HandshakeState::Done;
                            HandshakeAction::Finish
                        },
                        Result::Err(e) => {
                            self.state = HandshakeState::Failed;
                            HandshakeAction::Fail(e)
                        },
                    }
                },
                NsqFramed::Error(e) => {
                    self.state = HandshakeState::Failed;
                    HandshakeAction::Fail(Error::NsqError(e))
                },
                _ => self.protocol_fail(),
            },
            _ => self.protocol_fail(),
        }
    }

    /// Aborts on a frame that has no place in the handshake.
    fn protocol_fail(&mut self) -> (action: HandshakeAction)
        ensures
            final(self).config == old(self).config,
            final(self).server == old(self).server,
            final(self).auth == old(self).auth,
            spec_protocol_fail(action, final(self).state),
    {
        self.state = HandshakeState::Failed;
        HandshakeAction::Fail(Error::IoError("unexpected frame during handshake".to_owned()))
    }

    /// Decides what follows the capabilities: TLS, else compression.
    fn after_identify(&mut self) -> (action: HandshakeAction)
        requires
            config_wf(old(self).config),
            old(self).server is Some,
        ensures
            final(self).config == old(self).config,
            final(self).server == old(self).server,
            spec_after_identify(
                old(self).config,
                old(self).server.unwrap(),
                action,
                final(self).state,
            ),
            hs_wf(*final(self)),
    {
        let tls_wanted = match &self.server {
            Option::Some(ir) => ir.tls_v1,
            Option::None => false,
        };
        if tls_wanted {
            if self.config.tls_v1.is_some() {
                self.state = HandshakeState::AwaitTlsOk;
                HandshakeAction::UpgradeTls
            } else {
                self.state = HandshakeState::Failed;
                HandshakeAction::Fail(Error::TlsError("no tls configuration".to_owned()))
            }
        } else {
            self.compress_step()
        }
    }

    /// Decides the compression upgrade, or moves on to authentication.
    fn compress_step(&mut self) -> (action: HandshakeAction)
        requires
            config_wf(old(self).config),
            old(self).server is Some,
        ensures
            final(self).config == old(self).config,
            final(self).server == old(self).server,
            spec_compress_step(
                old(self).config,
                old(self).server.unwrap(),
                action,
                final(self).state,
            ),
            hs_wf(*final(self)),
    {
        let (snappy, deflate, level) = match &self.server {
            Option::Some(ir) => (ir.snappy, ir.deflate, ir.deflate_level),
            Option::None => (false, false, 0),
        };
        if snappy {
            self.state = HandshakeState::AwaitCompressOk;
            HandshakeAction::UpgradeSnappy
        } else if deflate {
            self.state = HandshakeState::AwaitCompressOk;
            HandshakeAction::UpgradeDeflate(level)
        } else {
            self.auth_step()
        }
    }

    /// Decides authentication: AUTH with the secret, failure without one,
    /// or straight to done.
    fn auth_step(&mut self) -> (action: HandshakeAction)
        requires
            config_wf(old(self).config),
            old(self).server is Some,
        ensures
            final(self).config == old(self).config,
            final(self).server == old(self).server,
            spec_auth_step(old(self).config, old(self).server.unwrap(), action, final(self).state),
            hs_wf(*final(self)),
    {
        let auth_required = match &self.server {
            Option::Some(ir) => ir.auth_required,
            Option::None => false,
        };
        if auth_required {
            match &self.config.auth_secret {
                Option::Some(secret) => {
                    let sc = secret.clone();
                    let mut codec = NsqCodec::new(self.config.feature_negotiation);
                    let mut buf: Vec<u8> = Vec::new();
                    let _ = codec.encode(Command::Auth(sc), &mut buf);
                    self.state = HandshakeState::AwaitAuthReply;
                    HandshakeAction::Send(buf)
                },
                Option::None => {
                    self.state = HandshakeState::Failed;
                    HandshakeAction::Fail(Error::Auth("Required auth secret".to_owned()))
                },
            }
        } else {
            self.state = HandshakeState::Done;
            HandshakeAction::Finish
        }
    }
}

} // verus!
