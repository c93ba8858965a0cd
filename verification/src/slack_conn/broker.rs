//! The broker's dispatch loop, as a state machine.
//!
//! The broker's thread waits for an event, hands it to
//! [`SlackHTTPConn::step`], and performs the action that comes back. The
//! broker starts out [`Phase::Running`]. A close request, or a request
//! channel whose sender is gone, moves it to [`Phase::Closing`] and tells
//! the thread to close and join the stream session; only the report that
//! the session was joined moves it to [`Phase::Stopped`] and lets the thread
//! end.

use super::worker::call_for;
use super::worker::plan;
use super::worker::within_limits;
use super::worker::Call;
use super::Req;
use vstd::prelude::*;

verus! {

/// Where the broker stands in its life.
#[derive(Debug, PartialEq, Eq, Clone, Copy)]
pub enum Phase {
    /// Requests are accepted and dispatched.
    Running,
    /// A close was seen; the stream session has been told to end and is
    /// being waited for. Requests are no longer served.
    Closing,
    /// The stream session is gone and so is the broker.
    Stopped,
}

/// What the broker's thread can observe.
#[derive(Debug, PartialEq, Eq)]
pub enum BrokerEvent {
    /// The request channel delivered a request.
    Request(Req),
    /// The request channel reported that its sender is gone.
    Disconnected,
    /// The stream session's thread has ended and has been joined.
    SessionJoined,
}

/// What the broker's thread is to do next.
#[derive(Debug, PartialEq, Eq)]
pub enum BrokerAction {
    /// Start a worker of its own for `call`, give it this copy of the
    /// token, and go on without waiting for it.
    Spawn { token: String, call: Call },
    /// Send the close signal to the stream session, then wait until its
    /// thread has ended.
    CloseSession,
    /// Leave the loop; the broker's thread ends.
    Exit,
    /// Nothing to do for this event.
    Idle,
}

/// The phase that follows `phase` when `event` is observed.
pub open spec fn next_phase(phase: Phase, event: BrokerEvent) -> Phase {
    match (phase, event) {
        (Phase::Running, BrokerEvent::Request(Req::Close)) => Phase::Closing,
        (Phase::Running, BrokerEvent::Disconnected) => Phase::Closing,
        (Phase::Closing, BrokerEvent::SessionJoined) => Phase::Stopped,
        _ => phase,
    }
}

/// The action that a broker holding `token` takes when it observes `event`
/// in `phase`.
pub open spec fn action_for(token: String, phase: Phase, event: BrokerEvent) -> BrokerAction {
    match (phase, event) {
        (Phase::Running, BrokerEvent::Request(req)) => match call_for(req) {
            Some(call) => BrokerAction::Spawn { token, call },
            None => BrokerAction::CloseSession,
        },
        (Phase::Running, BrokerEvent::Disconnected) => BrokerAction::CloseSession,
        (Phase::Closing, BrokerEvent::SessionJoined) => BrokerAction::Exit,
        _ => BrokerAction::Idle,
    }
}

/// The phase reached from `phase` after observing `events` in order.
pub open spec fn phase_after(phase: Phase, events: Seq<BrokerEvent>) -> Phase
    decreases events.len(),
{
    if events.len() == 0 {
        phase
    } else {
        next_phase(phase_after(phase, events.drop_last()), events.last())
    }
}

/// The actions taken, one for each event, by a broker that holds `token`
/// and starts in `phase`.
pub open spec fn actions_of(token: String, phase: Phase, events: Seq<BrokerEvent>) -> Seq<
    BrokerAction,
> {
    Seq::new(
        events.len(),
        |i: int| action_for(token, phase_after(phase, events.take(i)), events[i]),
    )
}

/// How far a phase is along the broker's life.
pub open spec fn rank(phase: Phase) -> int {
    match phase {
        Phase::Running => 0,
        Phase::Closing => 1,
        Phase::Stopped => 2,
    }
}

/// Whether observing `event` ends the serving of requests.
pub open spec fn is_close(event: BrokerEvent) -> bool {
    event == BrokerEvent::Request(Req::Close) || event == BrokerEvent::Disconnected
}

/// The coordinating state of the broker: the token it was started with and
/// the phase it is in.
pub struct SlackHTTPConn {
    token: String,
    phase: Phase,
}

impl SlackHTTPConn {
    /// The token that every worker gets a copy of.
    pub closed spec fn spec_token(&self) -> &String {
        &self.token
    }

    /// The phase the broker is in.
    pub closed spec fn spec_phase(&self) -> Phase {
        self.phase
    }

    /// A broker that holds `token` and accepts requests.
    pub fn new(token: String) -> (conn: Self)
        ensures
            *conn.token() == token,
            conn.phase() == Phase::Running,
    {
        SlackHTTPConn { token, phase: Phase::Running }
    }

    #[verifier::when_used_as_spec(spec_token)]
    pub fn token(&self) -> (token: &String)
        ensures
            token == self.spec_token(),
    {
        &self.token
    }

    #[verifier::when_used_as_spec(spec_phase)]
    pub fn phase(&self) -> (phase: Phase)
        ensures
            phase == self.spec_phase(),
    {
        self.phase
    }

    /// Whether the broker's thread is to leave its loop.
    pub fn is_stopped(&self) -> (stopped: bool)
        ensures
            stopped == (self.phase() == Phase::Stopped),
    {
        match self.phase {
            Phase::Stopped => true,
            _ => false,
        }
    }

    /// Takes one event and says what to do about it.
    ///
    /// While running, every request but `Close` starts a worker and leaves
    /// the broker running: the next request can be taken at once, however
    /// long the worker takes. `Close` and a vanished sender both start the
    /// shutdown. The token never changes.
    pub fn step(&mut self, event: BrokerEvent) -> (action: BrokerAction)
        ensures
            *final(self).token() == *old(self).token(),
            final(self).phase() == next_phase(old(self).phase(), event),
            action == action_for(*old(self).token(), old(self).phase(), event),
            old(self).phase() == Phase::Running && event is Request && event != BrokerEvent::Request(
                Req::Close,
            ) ==> final(self).phase() == Phase::Running && action is Spawn,
            action matches BrokerAction::Spawn { call, .. } ==> within_limits(call),
            action == BrokerAction::Exit ==> event == BrokerEvent::SessionJoined,
    {
        match self.phase {
            Phase::Running => match event {
                BrokerEvent::Request(req) => match plan(req) {
                    Some(call) => BrokerAction::Spawn { token: self.token.clone(), call },
                    None => {
                        self.phase = Phase::Closing;
                        BrokerAction::CloseSession
                    },
                },
                BrokerEvent::Disconnected => {
                    self.phase = Phase::Closing;
                    BrokerAction::CloseSession
                },
                BrokerEvent::SessionJoined => BrokerAction::Idle,
            },
            Phase::Closing => match event {
                BrokerEvent::SessionJoined => {
                    self.phase = Phase::Stopped;
                    BrokerAction::Exit
                },
                _ => BrokerAction::Idle,
            },
            Phase::Stopped => BrokerAction::Idle,
        }
    }

    /// Takes a batch of events in order and returns the action for each.
    pub fn run(&mut self, events: Vec<BrokerEvent>) -> (actions: Vec<BrokerAction>)
        ensures
            *final(self).token() == *old(self).token(),
            final(self).phase() == phase_after(old(self).phase(), events@),
            actions@ == actions_of(*old(self).token(), old(self).phase(), events@),
    {
        let ghost start = self.phase;
        let ghost token = self.token;
        let ghost all = events@;
        let mut actions: Vec<BrokerAction> = Vec::new();
        for event in it: events
            invariant
                *self.token() == token,
                it.seq() == all,
                actions@.len() == it.index(),
                self.phase() == phase_after(start, all.take(it.index() as int)),
                actions@ == actions_of(token, start, all.take(it.index() as int)),
        {
            let ghost done = actions@.len() as int;
            let action = self.step(event);
            proof {
                lemma_phase_after_take(start, all, done);
                lemma_actions_of_take(token, start, all, done);
            }
            actions.push(action);
        }
        proof {
            assert(all.take(all.len() as int) =~= all);
        }
        actions
    }
}

/// Observing one more event moves the phase by one step.
pub proof fn lemma_phase_after_take(phase: Phase, events: Seq<BrokerEvent>, i: int)
    requires
        0 <= i < events.len(),
    ensures
        phase_after(phase, events.take(i + 1)) == next_phase(
            phase_after(phase, events.take(i)),
            events[i],
        ),
{
    assert(events.take(i + 1).drop_last() =~= events.take(i));
}

/// The actions for a longer batch begin with the actions for the shorter.
pub proof fn lemma_actions_of_take(token: String, phase: Phase, events: Seq<BrokerEvent>, i: int)
    requires
        0 <= i < events.len(),
    ensures
        actions_of(token, phase, events.take(i + 1)) == actions_of(
            token,
            phase,
            events.take(i),
        ).push(action_for(token, phase_after(phase, events.take(i)), events[i])),
{
    let longer = events.take(i + 1);
    assert forall|k: int| 0 <= k <= i implies #[trigger] longer.take(k) == events.take(k) by {
        assert(longer.take(k) =~= events.take(k));
    }
    assert forall|k: int| 0 <= k < i implies #[trigger] events.take(i).take(k) == events.take(
        k,
    ) by {
        assert(events.take(i).take(k) =~= events.take(k));
    }
    assert(actions_of(token, phase, longer) =~= actions_of(token, phase, events.take(i)).push(
        action_for(token, phase_after(phase, events.take(i)), events[i]),
    ));
}

/// The actions for the first `n` events do not depend on what comes later.
pub proof fn lemma_actions_of_prefix(
    token: String,
    phase: Phase,
    events: Seq<BrokerEvent>,
    n: int,
    k: int,
)
    requires
        0 <= k < n <= events.len(),
    ensures
        actions_of(token, phase, events.take(n))[k] == actions_of(token, phase, events)[k],
{
    assert(events.take(n).take(k) =~= events.take(k));
}

/// The broker only moves forward: from running to closing to stopped.
pub proof fn lemma_phase_never_goes_back(phase: Phase, events: Seq<BrokerEvent>, i: int, j: int)
    requires
        0 <= i <= j <= events.len(),
    ensures
        rank(phase_after(phase, events.take(i))) <= rank(phase_after(phase, events.take(j))),
    decreases j - i,
{
    if i < j {
        lemma_phase_never_goes_back(phase, events, i, j - 1);
        lemma_phase_after_take(phase, events, j - 1);
    }
}

/// A burst of requests, none of them `Close`, is dispatched whole: each
/// request starts its own worker with its own copy of the token, and the
/// broker is running before and after each of them. No event from any
/// worker is needed in between: the broker has none to wait for.
pub proof fn lemma_burst_is_dispatched(token: String, requests: Seq<Req>, i: int)
    requires
        forall|k: int| 0 <= k < requests.len() ==> requests[k] != Req::Close,
        0 <= i < requests.len(),
    ensures
        ({
            let events = requests.map_values(|req: Req| BrokerEvent::Request(req));
            &&& phase_after(Phase::Running, events.take(i)) == Phase::Running
            &&& phase_after(Phase::Running, events) == Phase::Running
            &&& actions_of(token, Phase::Running, events)[i] == (BrokerAction::Spawn {
                token,
                call: call_for(requests[i])->0,
            })
        }),
{
    let events = requests.map_values(|req: Req| BrokerEvent::Request(req));
    lemma_requests_keep_running(requests, requests.len() as int);
    lemma_requests_keep_running(requests, i);
    assert(events.take(requests.len() as int) =~= events);
}

proof fn lemma_requests_keep_running(requests: Seq<Req>, n: int)
    requires
        forall|k: int| 0 <= k < requests.len() ==> requests[k] != Req::Close,
        0 <= n <= requests.len(),
    ensures
        phase_after(
            Phase::Running,
            requests.map_values(|req: Req| BrokerEvent::Request(req)).take(n),
        ) == Phase::Running,
    decreases n,
{
    let events = requests.map_values(|req: Req| BrokerEvent::Request(req));
    if n > 0 {
        lemma_requests_keep_running(requests, n - 1);
        lemma_phase_after_take(Phase::Running, events, n - 1);
        assert(events[n - 1] == BrokerEvent::Request(requests[n - 1]));
    }
}

/// Close is final. Once a close was observed, by request or because the
/// sender is gone, the broker never runs again and starts no more workers,
/// whatever it is sent.
pub proof fn lemma_close_is_final(
    token: String,
    phase: Phase,
    events: Seq<BrokerEvent>,
    i: int,
    j: int,
)
    requires
        0 <= i < j < events.len(),
        is_close(events[i]),
    ensures
        phase_after(phase, events.take(j)) != Phase::Running,
        phase_after(phase, events) != Phase::Running,
        !(actions_of(token, phase, events)[j] is Spawn),
{
    lemma_phase_after_take(phase, events, i);
    lemma_phase_never_goes_back(phase, events, i + 1, j);
    lemma_phase_never_goes_back(phase, events, j, events.len() as int);
    assert(events.take(events.len() as int) =~= events);
}

/// A broker that has left the running phase was told to close, and told the
/// session to close at that very event.
pub proof fn lemma_closing_was_closed(token: String, events: Seq<BrokerEvent>) -> (i: int)
    requires
        phase_after(Phase::Running, events) != Phase::Running,
    ensures
        0 <= i < events.len(),
        is_close(events[i]),
        phase_after(Phase::Running, events.take(i)) == Phase::Running,
        actions_of(token, Phase::Running, events)[i] == BrokerAction::CloseSession,
    decreases events.len(),
{
    let earlier = events.drop_last();
    let n = events.len() - 1;
    assert(earlier =~= events.take(n));
    if phase_after(Phase::Running, earlier) != Phase::Running {
        let i = lemma_closing_was_closed(token, earlier);
        lemma_actions_of_prefix(token, Phase::Running, events, n, i);
        assert(earlier.take(i) =~= events.take(i));
        i
    } else {
        n
    }
}

/// No orphaned session. A broker that has stopped was told that the stream
/// session had been joined, after it had told the session to close: there
/// is an event `closed` at which the broker asked for the session to be
/// closed, and a later event `joined` that reports the session's end and
/// lets the broker leave.
pub proof fn lemma_stopped_after_join(token: String, events: Seq<BrokerEvent>) -> (at: (int, int))
    requires
        phase_after(Phase::Running, events) == Phase::Stopped,
    ensures
        ({
            let (closed, joined) = at;
            &&& 0 <= closed < joined < events.len()
            &&& actions_of(token, Phase::Running, events)[closed] == BrokerAction::CloseSession
            &&& events[joined] == BrokerEvent::SessionJoined
            &&& actions_of(token, Phase::Running, events)[joined] == BrokerAction::Exit
        }),
    decreases events.len(),
{
    let earlier = events.drop_last();
    let n = events.len() - 1;
    assert(earlier =~= events.take(n));
    if phase_after(Phase::Running, earlier) == Phase::Stopped {
        let (closed, joined) = lemma_stopped_after_join(token, earlier);
        lemma_actions_of_prefix(token, Phase::Running, events, n, closed);
        lemma_actions_of_prefix(token, Phase::Running, events, n, joined);
        (closed, joined)
    } else {
        let closed = lemma_closing_was_closed(token, earlier);
        lemma_actions_of_prefix(token, Phase::Running, events, n, closed);
        (closed, n)
    }
}

/// One session, one shutdown. Whatever arrives, the broker asks at most
/// once for the session to be closed and leaves at most once.
pub proof fn lemma_closes_and_exits_once(
    token: String,
    phase: Phase,
    events: Seq<BrokerEvent>,
    i: int,
    j: int,
)
    requires
        0 <= i < j < events.len(),
    ensures
        ({
            let actions = actions_of(token, phase, events);
            &&& !(actions[i] == BrokerAction::CloseSession && actions[j]
                == BrokerAction::CloseSession)
            &&& !(actions[i] == BrokerAction::Exit && actions[j] == BrokerAction::Exit)
        }),
{
    lemma_phase_after_take(phase, events, i);
    lemma_phase_never_goes_back(phase, events, i + 1, j);
}

/// Every worker that the broker starts, in any phase and after any history,
/// carries the broker's own token and a call within the limits of its kind,
/// and it is started for a request that arrived while the broker was
/// running.
pub proof fn lemma_every_spawn_is_bounded(
    token: String,
    phase: Phase,
    events: Seq<BrokerEvent>,
    i: int,
)
    requires
        0 <= i < events.len(),
        actions_of(token, phase, events)[i] is Spawn,
    ensures
        phase_after(phase, events.take(i)) == Phase::Running,
        events[i] matches BrokerEvent::Request(req) && call_for(req) == Some(
            actions_of(token, phase, events)[i]->call,
        ),
        actions_of(token, phase, events)[i]->token == token,
        within_limits(actions_of(token, phase, events)[i]->call),
{
}

} // verus!
