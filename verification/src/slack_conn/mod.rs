//! Requests, responses and the rules that connect them.
//!
//! The interface sends a [`Req`] and, some time later and in no fixed order,
//! reads zero or more [`Resp`] values. No response names the request that
//! caused it.

pub mod broker;
pub mod session;
pub mod worker;

pub use self::broker::SlackHTTPConn;
pub use self::session::SlackWSConn;
pub use self::session::SlackWSReq;

use self::broker::Phase;
use self::session::WsAction;
use self::session::WsState;
use vstd::prelude::*;

verus! {

/// `slack_api::Channel`, a channel as the backend describes it. The broker
/// carries such values from the call that produced them to the response and
/// never looks inside.
#[verifier::external_type_specification]
#[verifier::external_body]
pub struct ExChannel(slack_api::Channel);

/// `slack_api::Im`, a direct-message conversation. Carried, never opened.
#[verifier::external_type_specification]
#[verifier::external_body]
pub struct ExIm(slack_api::Im);

/// `slack_api::User`, a member of the team. Carried, never opened.
#[verifier::external_type_specification]
#[verifier::external_body]
pub struct ExUser(slack_api::User);

/// `slack_api::Message`, one message of a channel's history. Carried, never
/// opened.
#[verifier::external_type_specification]
#[verifier::external_body]
pub struct ExMessage(slack_api::Message);

/// `websocket::OwnedMessage`, one frame that the live stream delivered.
/// Carried, never opened.
#[verifier::external_type_specification]
#[verifier::external_body]
pub struct ExOwnedMessage(websocket::OwnedMessage);

/// What the interface can ask of the broker.
#[derive(Debug, PartialEq, Eq)]
pub enum Req {
    /// List the channels of the team.
    ChannelList,
    /// List the members of the team.
    UserList,
    /// List the direct-message conversations.
    ImList,
    /// Fetch the latest messages of the channel with this id.
    ChannelHistory(String),
    /// Shut the broker down. Nothing is accepted after it.
    Close,
}

/// What the broker hands back to the interface.
#[derive(Debug)]
pub enum Resp {
    ChannelList(Vec<slack_api::Channel>),
    ImList(Vec<slack_api::Im>),
    UserList(Vec<slack_api::User>),
    /// The channel's id and its latest messages.
    ChannelHistory(String, Vec<slack_api::Message>),
    /// One event of the live stream, as it came.
    WS(websocket::OwnedMessage),
}

/// Starts a broker for the holder of `token`.
///
/// A broker comes with exactly one stream session, and both hold the same
/// token. The broker accepts requests from the start; the session starts
/// out connecting, and its first action, which is returned with it, is to
/// ask the backend for the stream's URL.
pub fn spawn(token: String) -> (started: (SlackHTTPConn, SlackWSConn, WsAction))
    ensures
        *started.0.token() == token,
        started.0.phase() == Phase::Running,
        started.1.state() == WsState::Connecting,
        started.2 == WsAction::Start(token),
{
    let conn = SlackHTTPConn::new(token.clone());
    let (session, first) = SlackWSConn::open(token);
    (conn, session, first)
}

} // verus!
