//! The live event stream, as a state machine.
//!
//! A session asks the backend where its stream lives, connects there, and
//! then runs two halves on one event loop: a reader that forwards every
//! inbound message, and a writer that waits for control signals. The halves
//! end together: whichever finishes, for whatever reason, ends the session.
//! Nothing is retried; a session that has closed stays closed.
//!
//! The event loop hands each thing it observes to [`SlackWSConn::step`] and
//! performs the action that comes back.

use super::Resp;
use vstd::prelude::*;

verus! {

/// What the broker can tell a session.
#[derive(Debug, PartialEq, Eq, Clone, Copy)]
pub enum SlackWSReq {
    /// End the session.
    Close,
}

/// Where a session stands.
#[derive(Debug, PartialEq, Eq, Clone, Copy)]
pub enum WsState {
    /// The backend is being asked for the stream's URL.
    Connecting,
    /// The connection to that URL is being set up.
    Handshaking,
    /// Reader and writer are running.
    Open,
    /// Both halves have ended. There is no way back.
    Closed,
}

/// What a session's event loop can observe.
#[derive(Debug)]
pub enum WsEvent {
    /// The backend answered the question for the stream's URL; `None`
    /// where the answer holds no URL.
    Started(Option<String>),
    /// The question for the stream's URL failed.
    StartFailed,
    /// The connection stands.
    Connected,
    /// The connection could not be set up.
    ConnectFailed,
    /// The reader received a message.
    Message(websocket::OwnedMessage),
    /// The reader found nobody left to take its responses.
    ConsumerGone,
    /// The connection broke.
    TransportFailed,
    /// The reader's stream ran out.
    ReaderFinished,
    /// The writer's control channel ran out.
    WriterFinished,
    /// The writer received a control signal.
    Control(SlackWSReq),
}

/// What a session's event loop is to do next.
#[derive(Debug)]
pub enum WsAction {
    /// Ask the backend, with this token, for the stream's URL.
    Start(String),
    /// Connect to this URL.
    Connect(String),
    /// Send this response to the interface.
    Forward(Resp),
    /// End both halves and leave the event loop.
    Stop,
    /// Go on waiting.
    Continue,
}

/// Whether `event`, observed while the session is open, ends it.
pub open spec fn ends_open_session(event: WsEvent) -> bool {
    event is ConsumerGone || event is TransportFailed || event is ReaderFinished
        || event is WriterFinished || event is Control
}

/// The state that follows `state` when `event` is observed.
pub open spec fn next_state(state: WsState, event: WsEvent) -> WsState {
    match (state, event) {
        (WsState::Closed, _) => WsState::Closed,
        (_, WsEvent::Control(SlackWSReq::Close)) => WsState::Closed,
        (WsState::Connecting, WsEvent::Started(Some(_))) => WsState::Handshaking,
        (WsState::Connecting, WsEvent::Started(None)) => WsState::Closed,
        (WsState::Connecting, WsEvent::StartFailed) => WsState::Closed,
        (WsState::Handshaking, WsEvent::Connected) => WsState::Open,
        (WsState::Handshaking, WsEvent::ConnectFailed) => WsState::Closed,
        (WsState::Open, WsEvent::ConsumerGone) => WsState::Closed,
        (WsState::Open, WsEvent::TransportFailed) => WsState::Closed,
        (WsState::Open, WsEvent::ReaderFinished) => WsState::Closed,
        (WsState::Open, WsEvent::WriterFinished) => WsState::Closed,
        _ => state,
    }
}

/// The action that a session takes when it observes `event` in `state`.
///
/// A session stops exactly when it closes. It connects exactly when it has
/// learnt the URL. It forwards exactly the messages that it receives while
/// open, each as it came.
pub open spec fn reaction(state: WsState, event: WsEvent) -> WsAction {
    match (state, event) {
        (WsState::Closed, _) => WsAction::Continue,
        (_, WsEvent::Control(SlackWSReq::Close)) => WsAction::Stop,
        (WsState::Connecting, WsEvent::Started(Some(url))) => WsAction::Connect(url),
        (WsState::Open, WsEvent::Message(message)) => WsAction::Forward(Resp::WS(message)),
        _ => if next_state(state, event) == WsState::Closed {
            WsAction::Stop
        } else {
            WsAction::Continue
        },
    }
}

/// The state reached from `state` after observing `events` in order.
pub open spec fn state_after(state: WsState, events: Seq<WsEvent>) -> WsState
    decreases events.len(),
{
    if events.len() == 0 {
        state
    } else {
        next_state(state_after(state, events.drop_last()), events.last())
    }
}

/// The actions taken, one for each event, by a session that starts in
/// `state`.
pub open spec fn reactions(state: WsState, events: Seq<WsEvent>) -> Seq<WsAction> {
    Seq::new(events.len(), |i: int| reaction(state_after(state, events.take(i)), events[i]))
}

/// How far a state is along the session's life.
pub open spec fn progress(state: WsState) -> int {
    match state {
        WsState::Connecting => 0,
        WsState::Handshaking => 1,
        WsState::Open => 2,
        WsState::Closed => 3,
    }
}

/// The state of one stream session.
pub struct SlackWSConn {
    state: WsState,
}

impl SlackWSConn {
    /// The state the session is in.
    pub closed spec fn spec_state(&self) -> WsState {
        self.state
    }

    /// Opens a session for the holder of `token`. The session starts out
    /// connecting, and the first thing to do is to ask the backend for the
    /// stream's URL.
    pub fn open(token: String) -> (opened: (Self, WsAction))
        ensures
            opened.0.state() == WsState::Connecting,
            opened.1 == WsAction::Start(token),
    {
        (SlackWSConn { state: WsState::Connecting }, WsAction::Start(token))
    }

    #[verifier::when_used_as_spec(spec_state)]
    pub fn state(&self) -> (state: WsState)
        ensures
            state == self.spec_state(),
    {
        self.state
    }

    /// Whether both halves have ended.
    pub fn is_closed(&self) -> (closed: bool)
        ensures
            closed == (self.state() == WsState::Closed),
    {
        match self.state {
            WsState::Closed => true,
            _ => false,
        }
    }

    /// Takes one event and says what to do about it.
    ///
    /// A failure before the session is open is fatal to it. Once open,
    /// every inbound message is forwarded; a consumer that is gone, a
    /// broken connection, a half that ran out and the close signal each end
    /// the session at once, so it never waits on a response that nobody
    /// will take.
    pub fn step(&mut self, event: WsEvent) -> (action: WsAction)
        ensures
            final(self).state() == next_state(old(self).state(), event),
            action == reaction(old(self).state(), event),
            action is Stop <==> old(self).state() != WsState::Closed && final(self).state()
                == WsState::Closed,
            old(self).state() == WsState::Open && ends_open_session(event) ==> action is Stop,
            action is Forward ==> old(self).state() == WsState::Open && event is Message
                && action == WsAction::Forward(Resp::WS(event->Message_0)),
            !(action is Start),
    {
        match self.state {
            WsState::Closed => WsAction::Continue,
            WsState::Connecting => match event {
                WsEvent::Started(Some(url)) => {
                    self.state = WsState::Handshaking;
                    WsAction::Connect(url)
                },
                WsEvent::Started(None) | WsEvent::StartFailed | WsEvent::Control(
                    SlackWSReq::Close,
                ) => {
                    self.state = WsState::Closed;
                    WsAction::Stop
                },
                _ => WsAction::Continue,
            },
            WsState::Handshaking => match event {
                WsEvent::Connected => {
                    self.state = WsState::Open;
                    WsAction::Continue
                },
                WsEvent::ConnectFailed | WsEvent::Control(SlackWSReq::Close) => {
                    self.state = WsState::Closed;
                    WsAction::Stop
                },
                _ => WsAction::Continue,
            },
            WsState::Open => match event {
                WsEvent::Message(message) => WsAction::Forward(Resp::WS(message)),
                WsEvent::ConsumerGone
                | WsEvent::TransportFailed
                | WsEvent::ReaderFinished
                | WsEvent::WriterFinished
                | WsEvent::Control(SlackWSReq::Close) => {
                    self.state = WsState::Closed;
                    WsAction::Stop
                },
                _ => WsAction::Continue,
            },
        }
    }
}

/// Observing one more event moves the state by one step.
pub proof fn lemma_state_after_take(state: WsState, events: Seq<WsEvent>, i: int)
    requires
        0 <= i < events.len(),
    ensures
        state_after(state, events.take(i + 1)) == next_state(
            state_after(state, events.take(i)),
            events[i],
        ),
{
    assert(events.take(i + 1).drop_last() =~= events.take(i));
}

/// A session only moves forward: connecting, handshaking, open, closed. In
/// particular a closed session stays closed: there is no reconnect.
pub proof fn lemma_session_never_goes_back(state: WsState, events: Seq<WsEvent>, i: int, j: int)
    requires
        0 <= i <= j <= events.len(),
    ensures
        progress(state_after(state, events.take(i))) <= progress(
            state_after(state, events.take(j)),
        ),
    decreases j - i,
{
    if i < j {
        lemma_session_never_goes_back(state, events, i, j - 1);
        lemma_state_after_take(state, events, j - 1);
    }
}

/// The close signal ends a session wherever it stands, and nothing is
/// forwarded, connected or stopped after it.
pub proof fn lemma_close_ends_session(state: WsState, events: Seq<WsEvent>, i: int, j: int)
    requires
        0 <= i < j < events.len(),
        events[i] == WsEvent::Control(SlackWSReq::Close),
    ensures
        state_after(state, events.take(j)) == WsState::Closed,
        state_after(state, events) == WsState::Closed,
        reactions(state, events)[j] == WsAction::Continue,
{
    lemma_state_after_take(state, events, i);
    lemma_session_never_goes_back(state, events, i + 1, j);
    lemma_session_never_goes_back(state, events, j, events.len() as int);
    assert(events.take(events.len() as int) =~= events);
}

/// A consumer that goes away does not leave the session hanging. An open
/// session that receives a message forwards it; when it then learns that
/// nobody is left to take the response, it stops.
pub proof fn lemma_consumer_gone_ends_session(message: websocket::OwnedMessage)
    ensures
        ({
            let events = seq![WsEvent::Message(message), WsEvent::ConsumerGone];
            &&& reactions(WsState::Open, events) == seq![
                WsAction::Forward(Resp::WS(message)),
                WsAction::Stop,
            ]
            &&& state_after(WsState::Open, events) == WsState::Closed
        }),
{
    let events = seq![WsEvent::Message(message), WsEvent::ConsumerGone];
    lemma_state_after_take(WsState::Open, events, 0);
    lemma_state_after_take(WsState::Open, events, 1);
    assert(events.take(2) =~= events);
    assert(reactions(WsState::Open, events) =~= seq![
        WsAction::Forward(Resp::WS(message)),
        WsAction::Stop,
    ]);
}

/// A session stops at most once, and it connects at most once: one session
/// holds one connection for its whole life.
pub proof fn lemma_stops_and_connects_once(state: WsState, events: Seq<WsEvent>, i: int, j: int)
    requires
        0 <= i < j < events.len(),
    ensures
        ({
            let actions = reactions(state, events);
            &&& !(actions[i] is Stop && actions[j] is Stop)
            &&& !(actions[i] is Connect && actions[j] is Connect)
        }),
{
    lemma_state_after_take(state, events, i);
    lemma_session_never_goes_back(state, events, i + 1, j);
}

/// The reader forwards what it receives and nothing else: every response
/// that a session emits is the message of the event that caused it, and
/// every message that arrives while the session is open is emitted.
pub proof fn lemma_forwards_exactly_the_inbound(state: WsState, events: Seq<WsEvent>, i: int)
    requires
        0 <= i < events.len(),
    ensures
        ({
            let before = state_after(state, events.take(i));
            let action = reactions(state, events)[i];
            &&& action is Forward ==> before == WsState::Open && events[i] is Message
            &&& before == WsState::Open && events[i] is Message ==> action == WsAction::Forward(
                Resp::WS(events[i]->Message_0),
            )
        }),
{
}

} // verus!
