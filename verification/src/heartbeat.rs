//! The heartbeat multiplexer.
//!
//! It sits between the framing codec and the caller. Each inbound frame is
//! routed: `_heartbeat_` responses are answered with one `NOP` and never
//! delivered; `OK`, messages and survivable broker errors are delivered;
//! `CLOSE_WAIT` ends the stream; a JSON response in the connected phase or
//! a fatal broker error terminates it. The `NOP` reply to a heartbeat is
//! sent and flushed before any later frame is delivered.

use vstd::prelude::*;
use crate::codec::{FrameView, MsgView, NsqFramed, NsqMsg, RawResponse, RawResponseView};
use crate::error::{spec_is_fatal, Error, NsqError, NsqErrorView};

verus! {

/// What the connection yields to its caller.
#[derive(Debug, Clone, PartialEq, Eq)]
pub enum Response {
    Okay,
    Error(NsqError),
    Msg(NsqMsg),
}

/// The view of a delivered item.
pub enum ResponseView {
    Okay,
    Error(NsqErrorView),
    Msg(MsgView),
}

impl View for Response {
    type V = ResponseView;

    open spec fn view(&self) -> ResponseView {
        match self {
            Response::Okay => ResponseView::Okay,
            Response::Error(e) => ResponseView::Error(e@),
            Response::Msg(m) => ResponseView::Msg(m@),
        }
    }
}

impl DeepView for Response {
    type V = ResponseView;

    open spec fn deep_view(&self) -> ResponseView {
        self.view()
    }
}

/// What the multiplexer does with one inbound frame.
#[derive(Debug, Clone, PartialEq, Eq)]
pub enum Routed {
    /// Hand this item to the caller.
    Deliver(Response),
    /// Send one `NOP`, flush it, deliver nothing.
    Pong,
    /// `CLOSE_WAIT`: end of stream.
    Eof,
    /// Terminate the stream with this error.
    Fatal(Error),
}

/// The spec-level routing verdict for one frame.
pub enum RouteView {
    Deliver(ResponseView),
    Pong,
    Eof,
    Fatal,
}

/// How the multiplexer routes one frame, per the protocol.
pub open spec fn spec_route(f: FrameView) -> RouteView {
    match f {
        FrameView::Response(RawResponseView::Okay) => RouteView::Deliver(ResponseView::Okay),
        FrameView::Response(RawResponseView::Heartbeat) => RouteView::Pong,
        FrameView::Response(RawResponseView::CloseWait) => RouteView::Eof,
        FrameView::Response(RawResponseView::Json(_)) => RouteView::Fatal,
        FrameView::Message(m) => RouteView::Deliver(ResponseView::Msg(m)),
        FrameView::Error(e) => if spec_is_fatal(e.code) {
            RouteView::Fatal
        } else {
            RouteView::Deliver(ResponseView::Error(e))
        },
    }
}

/// Whether an exec routing matches the spec verdict for a frame.
pub open spec fn routed_matches(r: Routed, f: FrameView) -> bool {
    match spec_route(f) {
        RouteView::Deliver(item) => r matches Routed::Deliver(d) && d@ == item,
        RouteView::Pong => r is Pong,
        RouteView::Eof => r is Eof,
        RouteView::Fatal => r matches Routed::Fatal(e) && (f matches FrameView::Error(ev) ==> (
        e matches Error::NsqError(ne) && ne@ == ev)) && (f matches FrameView::Response(rv) ==> (
        rv is Json && (e matches Error::IoError(m) && m@ == "unexpected json response"@))),
    }
}

/// The heartbeat multiplexer's own state: how many `NOP` replies are owed,
/// and whether one is sent but not yet flushed.
#[derive(Debug, Clone, PartialEq, Eq)]
pub struct Heartbeat {
    pub response_remaining: u64,
    pub responding: bool,
}

impl Heartbeat {
    /// A fresh multiplexer: nothing owed, reading.
    pub fn new() -> (h: Heartbeat)
        ensures
            h.response_remaining == 0,
            !h.responding,
    {
        Heartbeat { response_remaining: 0, responding: false }
    }

    /// Routes one inbound frame. A heartbeat adds one owed `NOP`; no other
    /// frame changes the owed count.
    pub fn on_frame(&mut self, frame: NsqFramed) -> (r: Routed)
        requires
            old(self).response_remaining < u64::MAX,
        ensures
            routed_matches(r, frame@),
            (frame@ matches FrameView::Response(v) && v is Heartbeat) ==> final(self).response_remaining
                == old(self).response_remaining + 1,
            !(frame@ matches FrameView::Response(v) && v is Heartbeat) ==> *final(self)
                == *old(self),
    {
        match frame {
            NsqFramed::Response(RawResponse::Okay) => Routed::Deliver(Response::Okay),
            NsqFramed::Response(RawResponse::Heartbeat) => {
                self.response_remaining = self.response_remaining + 1;
                Routed::Pong
            },
            NsqFramed::Response(RawResponse::CloseWait) => Routed::Eof,
            NsqFramed::Response(RawResponse::Json(_)) => Routed::Fatal(
                Error::IoError("unexpected json response".to_owned()),
            ),
            NsqFramed::Message(m) => Routed::Deliver(Response::Msg(m)),
            NsqFramed::Error(e) => {
                if e.is_fatal() {
                    Routed::Fatal(Error::NsqError(e))
                } else {
                    Routed::Deliver(Response::Error(e))
                }
            },
        }
    }

    /// Takes every owed `NOP` for sending: the count comes back, the debt
    /// clears, and the multiplexer is flushing until `pong_flushed`.
    pub fn start_pong(&mut self) -> (n: u64)
        ensures
            n == old(self).response_remaining,
            final(self).response_remaining == 0,
            final(self).responding,
    {
        let n = self.response_remaining;
        self.response_remaining = 0;
        self.responding = true;
        n
    }

    /// The sent `NOP`s reached the transport: back to reading.
    pub fn pong_flushed(&mut self)
        ensures
            final(self).response_remaining == old(self).response_remaining,
            !final(self).responding,
    {
        self.responding = false;
    }
}

/// What a whole inbound sequence routes to: the items delivered to the
/// caller and the count of `NOP` replies, up to the first frame that ends
/// or kills the stream.
pub open spec fn spec_route_all(frames: Seq<FrameView>) -> (Seq<ResponseView>, nat)
    decreases frames.len(),
{
    if frames.len() == 0 {
        (Seq::empty(), 0nat)
    } else {
        match spec_route(frames[0]) {
            RouteView::Deliver(item) => {
                let (d, n) = spec_route_all(frames.drop_first());
                (seq![item] + d, n)
            },
            RouteView::Pong => {
                let (d, n) = spec_route_all(frames.drop_first());
                (d, n + 1)
            },
            RouteView::Eof => (Seq::empty(), 0nat),
            RouteView::Fatal => (Seq::empty(), 0nat),
        }
    }
}

/// The prefix of a sequence the multiplexer actually handles: everything
/// before the first frame that ends or kills the stream.
pub open spec fn handled_prefix(frames: Seq<FrameView>) -> Seq<FrameView>
    decreases frames.len(),
{
    if frames.len() == 0 {
        Seq::empty()
    } else {
        match spec_route(frames[0]) {
            RouteView::Eof => Seq::empty(),
            RouteView::Fatal => Seq::empty(),
            _ => seq![frames[0]] + handled_prefix(frames.drop_first()),
        }
    }
}

/// Law: over any inbound sequence, exactly one `NOP` is replied per
/// heartbeat handled, heartbeats are never delivered, and every handled
/// non-heartbeat frame is delivered, in order.
pub proof fn lemma_one_nop_per_heartbeat(frames: Seq<FrameView>)
    ensures
        spec_route_all(frames).1 == handled_prefix(frames).filter(
            |f: FrameView| spec_route(f) is Pong,
        ).len(),
        spec_route_all(frames).0 =~= handled_prefix(frames).filter(
            |f: FrameView| !(spec_route(f) is Pong),
        ).map_values(
            |f: FrameView|
                match spec_route(f) {
                    RouteView::Deliver(item) => item,
                    _ => ResponseView::Okay,
                },
        ),
    decreases frames.len(),
{
    reveal_with_fuel(Seq::filter, 2);
    if frames.len() == 0 {
        assert(handled_prefix(frames) =~= Seq::<FrameView>::empty());
        assert(Seq::<FrameView>::empty().filter(|f: FrameView| spec_route(f) is Pong)
            =~= Seq::<FrameView>::empty());
        assert(Seq::<FrameView>::empty().filter(|f: FrameView| !(spec_route(f) is Pong))
            =~= Seq::<FrameView>::empty());
    } else {
        let rest = frames.drop_first();
        lemma_one_nop_per_heartbeat(rest);
        match spec_route(frames[0]) {
            RouteView::Eof => {},
            RouteView::Fatal => {},
            _ => {
                let hp = handled_prefix(frames);
                assert(hp =~= seq![frames[0]] + handled_prefix(rest));
                assert(hp.drop_first() =~= handled_prefix(rest));
                seq_filter_drop_first(hp, |f: FrameView| spec_route(f) is Pong);
                seq_filter_drop_first(hp, |f: FrameView| !(spec_route(f) is Pong));
            },
        }
    }
}

/// Filtering a nonempty sequence handles its head then the rest.
proof fn seq_filter_drop_first<A>(s: Seq<A>, pred: spec_fn(A) -> bool)
    requires
        s.len() > 0,
    ensures
        s.filter(pred) == if pred(s[0]) {
            seq![s[0]] + s.drop_first().filter(pred)
        } else {
            s.drop_first().filter(pred)
        },
    decreases s.len(),
{
    reveal(Seq::filter);
    if s.len() == 1 {
        assert(s.drop_first() =~= Seq::<A>::empty());
        assert(s.drop_last() =~= Seq::<A>::empty());
        if pred(s[0]) {
            assert(s.filter(pred) =~= seq![s[0]] + s.drop_first().filter(pred));
        }
    } else {
        let a = s.drop_last();
        seq_filter_drop_first(a, pred);
        assert(s.drop_first().drop_last() =~= a.drop_first());
        assert(s.last() == s.drop_first().last());
        if pred(s.last()) {
            assert(s.filter(pred) =~= a.filter(pred).push(s.last()));
            if pred(s[0]) {
                assert(s.filter(pred) =~= seq![s[0]] + s.drop_first().filter(pred));
            } else {
                assert(s.filter(pred) =~= s.drop_first().filter(pred));
            }
        } else {
            assert(s.filter(pred) =~= a.filter(pred));
            if pred(s[0]) {
                assert(s.filter(pred) =~= seq![s[0]] + s.drop_first().filter(pred));
            } else {
                assert(s.filter(pred) =~= s.drop_first().filter(pred));
            }
        }
    }
}

/// Routes a whole batch of frames through a fresh multiplexer, counting the
/// `NOP` replies and collecting what the caller would see.
#[verifier::loop_isolation(false)]
pub fn route_batch(frames: Vec<NsqFramed>) -> (r: (Vec<Response>, u64))
    requires
        frames@.len() < u64::MAX,
    ensures
        r.0.deep_view() == spec_route_all(frames.deep_view()).0,
        r.1 == spec_route_all(frames.deep_view()).1,
{
    let ghost fv = frames.deep_view();
    let mut rest = frames;
    let mut delivered: Vec<Response> = Vec::new();
    let mut nops: u64 = 0;
    let mut hb = Heartbeat::new();
    let n = rest.len();
    let mut i: usize = 0;
    proof {
        assert(fv.skip(0) =~= fv);
        assert(delivered.deep_view() =~= Seq::<ResponseView>::empty());
    }
    while i < n
        invariant
            0 <= i <= n,
            n == fv.len(),
            n < u64::MAX,
            rest.deep_view() == fv.skip(i as int),
            rest@.len() == n - i,
            nops <= i,
            hb.response_remaining == 0,
            delivered.deep_view() + spec_route_all(fv.skip(i as int)).0 == spec_route_all(fv).0,
            nops + spec_route_all(fv.skip(i as int)).1 == spec_route_all(fv).1,
        decreases n - i,
    {
        let ghost tail = fv.skip(i as int);
        let frame = rest.remove(0);
        proof {
            assert(tail.len() > 0);
            assert(frame.deep_view() == tail[0]);
            assert(tail.drop_first() =~= fv.skip(i as int + 1));
            assert(rest.deep_view() =~= fv.skip(i as int + 1));
        }
        let routed = hb.on_frame(frame);
        match routed {
            Routed::Deliver(item) => {
                proof {
                    assert(spec_route_all(tail).0 == seq![item@] + spec_route_all(
                        tail.drop_first(),
                    ).0);
                }
                let ghost pre = delivered.deep_view();
                delivered.push(item);
                proof {
                    assert(delivered.deep_view() =~= pre.push(item@));
                    assert(pre.push(item@) + spec_route_all(fv.skip(i as int + 1)).0 =~= pre + (
                    seq![item@] + spec_route_all(fv.skip(i as int + 1)).0));
                }
            },
            Routed::Pong => {
                let k = hb.start_pong();
                nops = nops + k;
                hb.pong_flushed();
            },
            Routed::Eof => {
                proof {
                    assert(spec_route(tail[0]) is Eof);
                    assert(spec_route_all(tail).0 =~= Seq::<ResponseView>::empty());
                    assert(spec_route_all(tail).1 == 0);
                    assert(delivered.deep_view() + Seq::<ResponseView>::empty()
                        =~= delivered.deep_view());
                }
                return (delivered, nops);
            },
            Routed::Fatal(_) => {
                proof {
                    assert(spec_route(tail[0]) is Fatal);
                    assert(spec_route_all(tail).0 =~= Seq::<ResponseView>::empty());
                    assert(spec_route_all(tail).1 == 0);
                    assert(delivered.deep_view() + Seq::<ResponseView>::empty()
                        =~= delivered.deep_view());
                }
                return (delivered, nops);
            },
        }
        i = i + 1;
    }
    proof {
        assert(fv.skip(n as int) =~= Seq::<FrameView>::empty());
        assert(delivered.deep_view() + Seq::<ResponseView>::empty() =~= delivered.deep_view());
    }
    (delivered, nops)
}

} // verus!
