use crate::hub::{bounded_push_all, lemma_publish_order_kept};
use crate::normalize::{
    lemma_quote_events_in_order, normalize_quotes, normalize_ticker_update_now, quote_event,
    quote_events, ticker_events,
};
use crate::types::{AlpacaQuote, KrakenTickerUpdate, Response};
use vstd::prelude::*;

verus! {

/// Seconds to wait after any failure before the next connection attempt.
pub const RETRY_DELAY_SECS: u64 = 5;

/// The venues this feed reads from.
#[derive(Clone, Copy, Debug, PartialEq, Eq, Structural)]
pub enum Venue {
    /// Quote-style venue: bid/ask pairs; needs an authentication message.
    Alpaca,
    /// Ticker-style venue: last-trade snapshots; no authentication.
    Kraken,
}

impl Venue {
    pub open spec fn needs_auth(self) -> bool {
        self is Alpaca
    }

    pub fn requires_auth(&self) -> (r: bool)
        ensures
            r == self.needs_auth(),
    {
        match self {
            Venue::Alpaca => true,
            Venue::Kraken => false,
        }
    }
}

/// Where one venue's session stands.
#[derive(Clone, Copy, Debug, PartialEq, Eq, Structural)]
pub enum Phase {
    /// Not started yet.
    Disconnected,
    /// A connection attempt is under way.
    Connecting,
    /// The authentication message is being sent.
    Authenticating,
    /// The subscription message is being sent.
    Subscribing,
    /// Messages are being read.
    Streaming,
    /// The session failed; waiting out the retry delay.
    Backoff,
}

/// A decoded text frame.
pub enum Frame {
    /// A batch of quotes from the quote-style venue.
    Quotes(Vec<AlpacaQuote>),
    /// A ticker message from the ticker-style venue.
    Tickers(KrakenTickerUpdate),
    /// A frame of no known shape: venue noise, to be ignored.
    Unrecognized,
}

impl Frame {
    pub open spec fn wf(&self) -> bool {
        match self {
            Frame::Quotes(qs) => forall|i: int| 0 <= i < qs@.len() ==> (#[trigger] qs@[i]).wf(),
            _ => true,
        }
    }
}

/// What the outside world reports to a supervisor.
pub enum SessionEvent {
    /// The supervisor is started.
    Start,
    /// The connection attempt succeeded.
    Connected,
    /// The connection attempt failed.
    ConnectFailed,
    /// The handshake message last asked for was sent.
    SendOk,
    /// The handshake message last asked for could not be sent.
    SendFailed,
    /// A text frame arrived.
    Text(Frame),
    /// A keepalive probe arrived with this payload.
    Ping(Vec<u8>),
    /// The remote end closed the session.
    Closed,
    /// Reading from the session failed.
    ReadError,
    /// The retry delay is over.
    DelayElapsed,
}

impl SessionEvent {
    pub open spec fn wf(&self) -> bool {
        match self {
            SessionEvent::Text(f) => f.wf(),
            _ => true,
        }
    }
}

/// What a supervisor asks the outside world to do next.
pub enum Action {
    /// Open a new connection to the venue.
    Connect,
    /// Send the venue's authentication message.
    SendAuth,
    /// Send the venue's subscription message.
    SendSubscribe,
    /// Publish these events to the hub, in this order.
    Publish(Vec<Response>),
    /// Answer a keepalive probe with this payload.
    Pong(Vec<u8>),
    /// Wait this many seconds, then report `DelayElapsed`.
    Sleep(u64),
    /// Nothing to do; wait for the next event.
    Nothing,
}

/// An action as the contracts see it.
pub ghost enum Command {
    Connect,
    SendAuth,
    SendSubscribe,
    Publish(Seq<Response>),
    Pong(Seq<u8>),
    Sleep(u64),
    Nothing,
}

impl View for Action {
    type V = Command;

    open spec fn view(&self) -> Command {
        match self {
            Action::Connect => Command::Connect,
            Action::SendAuth => Command::SendAuth,
            Action::SendSubscribe => Command::SendSubscribe,
            Action::Publish(v) => Command::Publish(v@),
            Action::Pong(p) => Command::Pong(p@),
            Action::Sleep(s) => Command::Sleep(*s),
            Action::Nothing => Command::Nothing,
        }
    }
}

/// The outcome of one step: the next phase and the command to perform.
pub ghost struct Step {
    pub phase: Phase,
    pub command: Command,
}

/// The events a frame yields; `now` is the clock reading used to stamp
/// ticker snapshots.
pub open spec fn frame_events(f: Frame, now: String) -> Option<Seq<Response>> {
    match f {
        Frame::Quotes(qs) => Some(quote_events(qs@)),
        Frame::Tickers(u) => Some(ticker_events(u.data@, now)),
        Frame::Unrecognized => None,
    }
}

/// One step of the supervisor: from a phase and an event, the next phase
/// and the action. Any event that a phase does not expect changes nothing.
pub open spec fn transition(venue: Venue, phase: Phase, ev: SessionEvent, now: String) -> Step {
    match (phase, ev) {
        (Phase::Disconnected, SessionEvent::Start) => Step {
            phase: Phase::Connecting,
            command: Command::Connect,
        },
        (Phase::Backoff, SessionEvent::DelayElapsed) => Step {
            phase: Phase::Connecting,
            command: Command::Connect,
        },
        (Phase::Connecting, SessionEvent::Connected) => if venue.needs_auth() {
            Step { phase: Phase::Authenticating, command: Command::SendAuth }
        } else {
            Step { phase: Phase::Subscribing, command: Command::SendSubscribe }
        },
        (Phase::Connecting, SessionEvent::ConnectFailed) => Step {
            phase: Phase::Backoff,
            command: Command::Sleep(RETRY_DELAY_SECS),
        },
        (Phase::Authenticating, SessionEvent::SendOk) => Step {
            phase: Phase::Subscribing,
            command: Command::SendSubscribe,
        },
        (Phase::Authenticating, SessionEvent::SendFailed) => Step {
            phase: Phase::Backoff,
            command: Command::Sleep(RETRY_DELAY_SECS),
        },
        (Phase::Subscribing, SessionEvent::SendOk) => Step {
            phase: Phase::Streaming,
            command: Command::Nothing,
        },
        (Phase::Subscribing, SessionEvent::SendFailed) => Step {
            phase: Phase::Backoff,
            command: Command::Sleep(RETRY_DELAY_SECS),
        },
        (Phase::Streaming, SessionEvent::Text(f)) => match frame_events(f, now) {
            Some(es) => Step { phase: Phase::Streaming, command: Command::Publish(es) },
            None => Step { phase: Phase::Streaming, command: Command::Nothing },
        },
        (Phase::Streaming, SessionEvent::Ping(p)) => Step {
            phase: Phase::Streaming,
            command: Command::Pong(p@),
        },
        (Phase::Streaming, SessionEvent::Closed) => Step {
            phase: Phase::Backoff,
            command: Command::Sleep(RETRY_DELAY_SECS),
        },
        (Phase::Streaming, SessionEvent::ReadError) => Step {
            phase: Phase::Backoff,
            command: Command::Sleep(RETRY_DELAY_SECS),
        },
        _ => Step { phase: phase, command: Command::Nothing },
    }
}

/// Where a run of events leaves a supervisor, and the commands it gave.
pub ghost struct Trace {
    pub phase: Phase,
    pub commands: Seq<Command>,
}

/// Feeds `evs` to a supervisor in `phase`, one step at a time.
pub open spec fn run(venue: Venue, phase: Phase, evs: Seq<SessionEvent>, now: String) -> Trace
    decreases evs.len(),
{
    if evs.len() == 0 {
        Trace { phase, commands: Seq::empty() }
    } else {
        let t = run(venue, phase, evs.drop_last(), now);
        let s = transition(venue, t.phase, evs.last(), now);
        Trace { phase: s.phase, commands: t.commands.push(s.command) }
    }
}

/// `n` failed connection attempts, each followed by the end of the delay.
pub open spec fn failed_attempts(n: nat) -> Seq<SessionEvent>
    decreases n,
{
    if n == 0 {
        Seq::empty()
    } else {
        failed_attempts((n - 1) as nat) + seq![SessionEvent::ConnectFailed, SessionEvent::DelayElapsed]
    }
}

/// `n` rounds of waiting the fixed delay, then connecting again.
pub open spec fn retry_commands(n: nat) -> Seq<Command>
    decreases n,
{
    if n == 0 {
        Seq::empty()
    } else {
        retry_commands((n - 1) as nat) + seq![Command::Sleep(RETRY_DELAY_SECS), Command::Connect]
    }
}

/// After a dropped session (a close or a read error) the supervisor waits
/// the fixed delay; nothing but the end of the delay moves it on, and then
/// it makes exactly one connection attempt, with no second one while that
/// attempt is under way.
pub proof fn lemma_drop_then_single_reconnect(
    venue: Venue,
    drop: SessionEvent,
    other: SessionEvent,
    now: String,
)
    requires
        drop is Closed || drop is ReadError,
        !(other is DelayElapsed),
    ensures
        transition(venue, Phase::Streaming, drop, now) == (Step {
            phase: Phase::Backoff,
            command: Command::Sleep(RETRY_DELAY_SECS),
        }),
        transition(venue, Phase::Backoff, other, now) == (Step {
            phase: Phase::Backoff,
            command: Command::Nothing,
        }),
        transition(venue, Phase::Backoff, SessionEvent::DelayElapsed, now) == (Step {
            phase: Phase::Connecting,
            command: Command::Connect,
        }),
        forall|e: SessionEvent| #[trigger] transition(venue, Phase::Connecting, e, now).command != Command::Connect,
{
}

/// However often the connection attempt fails, the supervisor keeps
/// waiting the fixed delay and trying again; it never stops.
pub proof fn lemma_retries_forever(venue: Venue, n: nat, now: String)
    ensures
        run(venue, Phase::Connecting, failed_attempts(n), now) == (Trace {
            phase: Phase::Connecting,
            commands: retry_commands(n),
        }),
    decreases n,
{
    if n == 0 {
        assert(failed_attempts(0) =~= Seq::<SessionEvent>::empty());
    } else {
        lemma_retries_forever(venue, (n - 1) as nat, now);
        let prev = failed_attempts((n - 1) as nat);
        let evs = failed_attempts(n);
        assert(evs.drop_last() =~= prev.push(SessionEvent::ConnectFailed));
        assert(prev.push(SessionEvent::ConnectFailed).drop_last() =~= prev);
        let cs = retry_commands((n - 1) as nat);
        let mid = prev.push(SessionEvent::ConnectFailed);
        assert(mid.last() == SessionEvent::ConnectFailed);
        assert(evs.last() == SessionEvent::DelayElapsed);
        let t1 = run(venue, Phase::Connecting, mid, now);
        assert(t1.phase == Phase::Backoff);
        assert(t1.commands == cs.push(Command::Sleep(RETRY_DELAY_SECS)));
        assert(cs.push(Command::Sleep(RETRY_DELAY_SECS)).push(Command::Connect) =~= retry_commands(n));
    }
}

/// A frame of no known shape is dropped: the session goes on streaming and
/// nothing is published.
pub proof fn lemma_unrecognized_frame_ignored(venue: Venue, now: String)
    ensures
        transition(venue, Phase::Streaming, SessionEvent::Text(Frame::Unrecognized), now) == (Step {
            phase: Phase::Streaming,
            command: Command::Nothing,
        }),
{
}

/// Records from one venue reach a consumer in the order they arrived: while
/// the consumer's queue has room, publishing the events of a run of
/// publishable quotes appends exactly one event per quote, in the quotes'
/// order, after what the queue already held.
pub proof fn lemma_quotes_reach_consumer_in_order(
    q: Seq<Response>,
    qs: Seq<AlpacaQuote>,
    cap: nat,
)
    requires
        cap > 0,
        q.len() + qs.len() <= cap,
        forall|i: int|
            0 <= i < qs.len() ==> (#[trigger] qs[i]).bid_price.is_positive()
                || qs[i].ask_price.is_positive(),
    ensures
        bounded_push_all(q, quote_events(qs), cap).len() == q.len() + qs.len(),
        bounded_push_all(q, quote_events(qs), cap).take(q.len() as int) == q,
        forall|i: int|
            0 <= i < qs.len() ==> Some(
                #[trigger] bounded_push_all(q, quote_events(qs), cap)[q.len() + i],
            ) == quote_event(qs[i]),
{
    lemma_quote_events_in_order(qs);
    lemma_publish_order_kept(q, quote_events(qs), cap);
    let es = quote_events(qs);
    assert((q + es).take(q.len() as int) =~= q);
    assert forall|i: int| 0 <= i < qs.len() implies Some(
        #[trigger] bounded_push_all(q, es, cap)[q.len() + i],
    ) == quote_event(qs[i]) by {
        assert((q + es)[q.len() + i] == es[i]);
    }
}

/// One venue's reconnecting session, as a state machine: the caller performs
/// each returned action and reports what happened as the next event.
pub struct Supervisor {
    pub venue: Venue,
    pub phase: Phase,
}

impl Supervisor {
    /// A supervisor that has not started yet.
    pub fn new(venue: Venue) -> (s: Supervisor)
        ensures
            s.venue == venue,
            s.phase == Phase::Disconnected,
    {
        Supervisor { venue, phase: Phase::Disconnected }
    }

    /// Takes one event and gives the action to perform next. Frames are
    /// normalized here, in the order they arrive; ticker snapshots are
    /// stamped with the clock reading taken during this call.
    pub fn step(&mut self, ev: SessionEvent) -> (r: Action)
        requires
            ev.wf(),
        ensures
            final(self).venue == old(self).venue,
            exists|now: String|
                final(self).phase == #[trigger] transition(old(self).venue, old(self).phase, ev, now).phase
                    && r@ == transition(old(self).venue, old(self).phase, ev, now).command,
    {
        let ghost any_now: String = arbitrary();
        let ghost venue = self.venue;
        let ghost phase = self.phase;
        let ghost event = ev;
        let (next, action) = match (self.phase, ev) {
            (Phase::Disconnected, SessionEvent::Start) => (Phase::Connecting, Action::Connect),
            (Phase::Backoff, SessionEvent::DelayElapsed) => (Phase::Connecting, Action::Connect),
            (Phase::Connecting, SessionEvent::Connected) => {
                if self.venue.requires_auth() {
                    (Phase::Authenticating, Action::SendAuth)
                } else {
                    (Phase::Subscribing, Action::SendSubscribe)
                }
            },
            (Phase::Connecting, SessionEvent::ConnectFailed) => (
                Phase::Backoff,
                Action::Sleep(RETRY_DELAY_SECS),
            ),
            (Phase::Authenticating, SessionEvent::SendOk) => (
                Phase::Subscribing,
                Action::SendSubscribe,
            ),
            (Phase::Authenticating, SessionEvent::SendFailed) => (
                Phase::Backoff,
                Action::Sleep(RETRY_DELAY_SECS),
            ),
            (Phase::Subscribing, SessionEvent::SendOk) => (Phase::Streaming, Action::Nothing),
            (Phase::Subscribing, SessionEvent::SendFailed) => (
                Phase::Backoff,
                Action::Sleep(RETRY_DELAY_SECS),
            ),
            (Phase::Streaming, SessionEvent::Text(Frame::Quotes(qs))) => {
                let es = normalize_quotes(&qs);
                (Phase::Streaming, Action::Publish(es))
            },
            (Phase::Streaming, SessionEvent::Text(Frame::Tickers(u))) => {
                let es = normalize_ticker_update_now(&u);
                let ghost now = choose|now: String| es@ == ticker_events(u.data@, now);
                self.phase = Phase::Streaming;
                assert(self.phase == transition(venue, phase, event, now).phase);
                return Action::Publish(es);
            },
            (Phase::Streaming, SessionEvent::Text(Frame::Unrecognized)) => (
                Phase::Streaming,
                Action::Nothing,
            ),
            (Phase::Streaming, SessionEvent::Ping(p)) => (Phase::Streaming, Action::Pong(p)),
            (Phase::Streaming, SessionEvent::Closed) => (
                Phase::Backoff,
                Action::Sleep(RETRY_DELAY_SECS),
            ),
            (Phase::Streaming, SessionEvent::ReadError) => (
                Phase::Backoff,
                Action::Sleep(RETRY_DELAY_SECS),
            ),
            (p, _) => (p, Action::Nothing),
        };
        self.phase = next;
        assert(self.phase == transition(venue, phase, event, any_now).phase);
        action
    }
}

} // verus!
