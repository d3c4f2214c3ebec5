//! Reconnection policy: when a connection attempt or an established stream
//! fails, try again, either at once or after a delay that grows linearly
//! with the number of failed attempts. A successful connect resets the
//! attempt count to zero.

use vstd::prelude::*;

verus! {

/// How long to wait between attempts.
#[derive(Debug, Clone, PartialEq, Eq)]
pub enum Strategy {
    /// Try again at once.
    Immediat,
    /// Wait this many seconds, multiplied by the failed-attempt count.
    Exponential(u64),
}

/// Where the reconnecting stream stands.
#[derive(Debug, Clone, PartialEq, Eq)]
pub enum ConnState {
    Idle,
    Delaying,
    Connecting,
    Connected,
}

/// What the driver must do next.
#[derive(Debug, Clone, PartialEq, Eq)]
pub enum ReconnectAction {
    /// Start a connection attempt now.
    Connect,
    /// Sleep this many seconds, then report back.
    Delay(u64),
}

/// The reconnect policy's state: its strategy, the failed attempts so far,
/// and where the stream stands.
#[derive(Debug, Clone, PartialEq, Eq)]
pub struct Reconnect {
    pub strategy: Strategy,
    pub attempts: u32,
    pub state: ConnState,
}

/// The wait before the next attempt: nothing, or the configured delay times
/// the failed-attempt count.
pub open spec fn spec_backoff(strategy: Strategy, attempts: u32) -> int {
    match strategy {
        Strategy::Immediat => 0,
        Strategy::Exponential(d) => d * attempts,
    }
}

impl Reconnect {
    /// A fresh policy: no attempts yet, idle.
    pub fn new(strategy: Strategy) -> (r: Reconnect)
        ensures
            r.strategy == strategy,
            r.attempts == 0,
            r.state is Idle,
    {
        Reconnect { strategy, attempts: 0, state: ConnState::Idle }
    }

    /// From idle: connect at once, or wait the linear backoff first.
    pub fn on_idle(&mut self) -> (a: ReconnectAction)
        requires
            old(self).state is Idle,
            spec_backoff(old(self).strategy, old(self).attempts) <= u64::MAX,
        ensures
            final(self).strategy == old(self).strategy,
            final(self).attempts == old(self).attempts,
            match old(self).strategy {
                Strategy::Immediat => a is Connect && final(self).state is Connecting,
                Strategy::Exponential(_) => (a matches ReconnectAction::Delay(d) && d
                    == spec_backoff(old(self).strategy, old(self).attempts)) && final(self).state
                    is Delaying,
            },
    {
        match self.strategy {
            Strategy::Immediat => {
                self.state = ConnState::Connecting;
                ReconnectAction::Connect
            },
            Strategy::Exponential(d) => {
                self.state = ConnState::Delaying;
                ReconnectAction::Delay(d * (self.attempts as u64))
            },
        }
    }

    /// The backoff elapsed: start the attempt.
    pub fn on_delay_done(&mut self) -> (a: ReconnectAction)
        requires
            old(self).state is Delaying,
        ensures
            final(self).strategy == old(self).strategy,
            final(self).attempts == old(self).attempts,
            final(self).state is Connecting,
            a is Connect,
    {
        self.state = ConnState::Connecting;
        ReconnectAction::Connect
    }

    /// The attempt finished: success connects and resets the attempt count
    /// to zero; failure counts one more attempt and goes back to idle.
    pub fn on_connect_result(&mut self, ok: bool)
        requires
            old(self).state is Connecting,
            old(self).attempts < u32::MAX,
        ensures
            final(self).strategy == old(self).strategy,
            ok ==> final(self).state is Connected && final(self).attempts == 0,
            !ok ==> final(self).state is Idle && final(self).attempts == old(self).attempts + 1,
    {
        if ok {
            self.attempts = 0;
            self.state = ConnState::Connected;
        } else {
            self.attempts = self.attempts + 1;
            self.state = ConnState::Idle;
        }
    }

    /// The established stream errored or ended: count one more attempt and
    /// reconnect from idle.
    pub fn on_stream_broken(&mut self)
        requires
            old(self).state is Connected,
            old(self).attempts < u32::MAX,
        ensures
            final(self).strategy == old(self).strategy,
            final(self).state is Idle,
            final(self).attempts == old(self).attempts + 1,
    {
        self.attempts = self.attempts + 1;
        self.state = ConnState::Idle;
    }
}

} // verus!
