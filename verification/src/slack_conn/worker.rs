//! One worker, one backend call, at most one response.
//!
//! A worker is given a [`Call`], performs it, and hands the answer to
//! [`respond`]. It shares nothing with any other worker: what it emits
//! depends on its own call and its own answer alone.

use super::Req;
use super::Resp;
use vstd::prelude::*;

verus! {

/// The most direct-message conversations that one listing asks for.
pub const IM_LIST_LIMIT: u32 = 5;

/// The most messages that one history call asks for.
pub const HISTORY_COUNT: u32 = 10;

/// A backend call with every parameter settled.
#[derive(Debug, PartialEq, Eq)]
pub enum Call {
    ChannelList,
    UserList,
    ImList {
        /// Upper bound on the conversations returned.
        limit: u32,
    },
    ChannelHistory {
        channel: String,
        /// Upper bound on the messages returned.
        count: u32,
        /// Start of the time range, in seconds; `None` leaves it open.
        oldest: Option<u64>,
        /// End of the time range, in seconds; `None` leaves it open.
        latest: Option<u64>,
    },
}

/// The list that a call brought back. The backend may answer without the
/// list it was asked for; the inner `None` stands for that.
#[derive(Debug)]
pub enum Payload {
    Channels(Option<Vec<slack_api::Channel>>),
    Ims(Option<Vec<slack_api::Im>>),
    Users(Option<Vec<slack_api::User>>),
    Messages(Option<Vec<slack_api::Message>>),
}

/// The call did not go through: the transport failed, the backend refused,
/// or the answer could not be read. The broker treats all three alike.
#[derive(Debug, PartialEq, Eq, Clone, Copy)]
pub struct CallFailed;

/// The call that serves a request; `None` for [`Req::Close`], which no
/// worker serves.
///
/// A direct-message listing asks for [`IM_LIST_LIMIT`] conversations. A
/// history call asks for [`HISTORY_COUNT`] messages and leaves both ends of
/// the time range open, so it always reads the most recent window.
pub open spec fn call_for(req: Req) -> Option<Call> {
    match req {
        Req::ChannelList => Some(Call::ChannelList),
        Req::UserList => Some(Call::UserList),
        Req::ImList => Some(Call::ImList { limit: IM_LIST_LIMIT }),
        Req::ChannelHistory(channel) => Some(
            Call::ChannelHistory { channel, count: HISTORY_COUNT, oldest: None, latest: None },
        ),
        Req::Close => None,
    }
}

/// Whether a call stays within the limits set for its kind.
pub open spec fn within_limits(call: Call) -> bool {
    match call {
        Call::ImList { limit } => limit <= IM_LIST_LIMIT,
        Call::ChannelHistory { count, oldest, latest, .. } => count <= HISTORY_COUNT && oldest is None
            && latest is None,
        _ => true,
    }
}

/// The response that a worker emits for its call and the answer it got, or
/// `None` where it emits nothing: the call failed, or the answer does not
/// hold the list that this call asks for.
pub open spec fn response_for(call: Call, outcome: Result<Payload, CallFailed>) -> Option<Resp> {
    match (call, outcome) {
        (Call::ChannelList, Ok(Payload::Channels(Some(channels)))) => Some(
            Resp::ChannelList(channels),
        ),
        (Call::UserList, Ok(Payload::Users(Some(members)))) => Some(Resp::UserList(members)),
        (Call::ImList { .. }, Ok(Payload::Ims(Some(ims)))) => Some(Resp::ImList(ims)),
        (Call::ChannelHistory { channel, .. }, Ok(Payload::Messages(Some(messages)))) => Some(
            Resp::ChannelHistory(channel, messages),
        ),
        _ => None,
    }
}

/// Settles the backend call for a request.
pub fn plan(req: Req) -> (call: Option<Call>)
    ensures
        call == call_for(req),
        call is None <==> req == Req::Close,
        call matches Some(c) ==> within_limits(c),
{
    match req {
        Req::ChannelList => Some(Call::ChannelList),
        Req::UserList => Some(Call::UserList),
        Req::ImList => Some(Call::ImList { limit: IM_LIST_LIMIT }),
        Req::ChannelHistory(channel) => Some(
            Call::ChannelHistory { channel, count: HISTORY_COUNT, oldest: None, latest: None },
        ),
        Req::Close => None,
    }
}

/// Turns a worker's answer into the response to send, if any.
///
/// A failed call is dropped without a trace: no response, no error value,
/// no second attempt.
pub fn respond(call: Call, outcome: Result<Payload, CallFailed>) -> (resp: Option<Resp>)
    ensures
        resp == response_for(call, outcome),
        outcome is Err ==> resp is None,
{
    match (call, outcome) {
        (Call::ChannelList, Ok(Payload::Channels(Some(channels)))) => Some(
            Resp::ChannelList(channels),
        ),
        (Call::UserList, Ok(Payload::Users(Some(members)))) => Some(Resp::UserList(members)),
        (Call::ImList { .. }, Ok(Payload::Ims(Some(ims)))) => Some(Resp::ImList(ims)),
        (Call::ChannelHistory { channel, .. }, Ok(Payload::Messages(Some(messages)))) => Some(
            Resp::ChannelHistory(channel, messages),
        ),
        _ => None,
    }
}

/// What a burst of workers emits: for each worker in turn, the response for
/// its call and its answer, where it has one. Workers finish in no fixed
/// order, so the interface may see these responses in any order.
pub open spec fn responses(calls: Seq<Call>, outcomes: Seq<Result<Payload, CallFailed>>) -> Seq<
    Resp,
>
    decreases calls.len(),
{
    if calls.len() == 0 {
        Seq::empty()
    } else {
        let earlier = responses(calls.drop_last(), outcomes);
        match response_for(calls.last(), outcomes[calls.len() - 1]) {
            Some(resp) => earlier.push(resp),
            None => earlier,
        }
    }
}

/// A burst of workers emits no more responses than there are workers.
pub proof fn lemma_responses_bounded(calls: Seq<Call>, outcomes: Seq<Result<Payload, CallFailed>>)
    ensures
        responses(calls, outcomes).len() <= calls.len(),
    decreases calls.len(),
{
    if calls.len() > 0 {
        lemma_responses_bounded(calls.drop_last(), outcomes);
    }
}

/// Every response of a burst is the work of one worker: there is a worker
/// whose own call and own answer give exactly this response. Nothing that
/// another worker was given or got back enters into it.
pub proof fn lemma_response_has_worker(
    calls: Seq<Call>,
    outcomes: Seq<Result<Payload, CallFailed>>,
    k: int,
) -> (worker: int)
    requires
        0 <= k < responses(calls, outcomes).len(),
    ensures
        0 <= worker < calls.len(),
        response_for(calls[worker], outcomes[worker]) == Some(responses(calls, outcomes)[k]),
    decreases calls.len(),
{
    let earlier = responses(calls.drop_last(), outcomes);
    if k < earlier.len() {
        lemma_response_has_worker(calls.drop_last(), outcomes, k)
    } else {
        calls.len() - 1
    }
}

/// A burst of user listings. However many workers list the users at once,
/// no more user lists come back than workers were started, and each list
/// that comes back is the very list that one of the workers received.
pub proof fn lemma_user_list_burst(outcomes: Seq<Result<Payload, CallFailed>>, k: int) -> (worker:
    int)
    requires
        0 <= k < responses(Seq::new(outcomes.len(), |i: int| Call::UserList), outcomes).len(),
    ensures
        responses(Seq::new(outcomes.len(), |i: int| Call::UserList), outcomes).len()
            <= outcomes.len(),
        0 <= worker < outcomes.len(),
        outcomes[worker] matches Ok(Payload::Users(Some(members))) && responses(
            Seq::new(outcomes.len(), |i: int| Call::UserList),
            outcomes,
        )[k] == Resp::UserList(members),
{
    let calls = Seq::new(outcomes.len(), |i: int| Call::UserList);
    lemma_responses_bounded(calls, outcomes);
    lemma_response_has_worker(calls, outcomes, k)
}

/// A worker whose call failed adds nothing to what a burst emits.
pub proof fn lemma_failed_call_is_silent(
    calls: Seq<Call>,
    outcomes: Seq<Result<Payload, CallFailed>>,
    call: Call,
)
    requires
        outcomes.len() == calls.len(),
    ensures
        responses(calls.push(call), outcomes.push(Err(CallFailed))) == responses(calls, outcomes),
{
    assert(calls.push(call).drop_last() =~= calls);
    lemma_responses_read_own_outcomes(calls, outcomes, outcomes.push(Err(CallFailed)));
}

/// What a burst emits depends on the answers of its own workers alone.
pub proof fn lemma_responses_read_own_outcomes(
    calls: Seq<Call>,
    first: Seq<Result<Payload, CallFailed>>,
    second: Seq<Result<Payload, CallFailed>>,
)
    requires
        forall|i: int| 0 <= i < calls.len() ==> first[i] == second[i],
    ensures
        responses(calls, first) == responses(calls, second),
    decreases calls.len(),
{
    if calls.len() > 0 {
        lemma_responses_read_own_outcomes(calls.drop_last(), first, second);
    }
}

} // verus!
