use slack_tui::slack_conn::broker::BrokerAction;
use slack_tui::slack_conn::broker::BrokerEvent;
use slack_tui::slack_conn::broker::Phase;
use slack_tui::slack_conn::worker::respond;
use slack_tui::slack_conn::worker::Call;
use slack_tui::slack_conn::worker::CallFailed;
use slack_tui::slack_conn::worker::Payload;
use slack_tui::slack_conn::Req;
use slack_tui::slack_conn::Resp;
use slack_tui::slack_conn::SlackHTTPConn;

fn spawn(token: &str, call: Call) -> BrokerAction {
    BrokerAction::Spawn { token: token.to_string(), call }
}

fn history(channel: &str) -> Call {
    Call::ChannelHistory { channel: channel.to_string(), count: 10, oldest: None, latest: None }
}

#[test]
fn new_broker_is_running_and_holds_its_token() {
    let conn = SlackHTTPConn::new("xoxp-1".to_string());
    assert_eq!(conn.phase(), Phase::Running);
    assert_eq!(conn.token(), "xoxp-1");
    assert!(!conn.is_stopped());
}

#[test]
fn every_request_but_close_spawns_and_keeps_running() {
    let mut conn = SlackHTTPConn::new("t".to_string());
    assert_eq!(conn.step(BrokerEvent::Request(Req::ChannelList)), spawn("t", Call::ChannelList));
    assert_eq!(conn.phase(), Phase::Running);
    assert_eq!(conn.step(BrokerEvent::Request(Req::UserList)), spawn("t", Call::UserList));
    assert_eq!(conn.phase(), Phase::Running);
    assert_eq!(
        conn.step(BrokerEvent::Request(Req::ImList)),
        spawn("t", Call::ImList { limit: 5 })
    );
    assert_eq!(conn.phase(), Phase::Running);
    assert_eq!(
        conn.step(BrokerEvent::Request(Req::ChannelHistory("random".to_string()))),
        spawn("t", history("random"))
    );
    assert_eq!(conn.phase(), Phase::Running);
    assert_eq!(conn.token(), "t");
}

#[test]
fn a_second_request_is_dispatched_while_the_first_worker_is_still_out() {
    let mut conn = SlackHTTPConn::new("t".to_string());
    let first = conn.step(BrokerEvent::Request(Req::ChannelHistory("slow".to_string())));
    let second = conn.step(BrokerEvent::Request(Req::UserList));
    assert_eq!(first, spawn("t", history("slow")));
    assert_eq!(second, spawn("t", Call::UserList));
    assert_eq!(conn.phase(), Phase::Running);
}

#[test]
fn close_asks_for_the_session_and_waits_for_it() {
    let mut conn = SlackHTTPConn::new("t".to_string());
    assert_eq!(conn.step(BrokerEvent::Request(Req::Close)), BrokerAction::CloseSession);
    assert_eq!(conn.phase(), Phase::Closing);
    assert!(!conn.is_stopped());
    assert_eq!(conn.step(BrokerEvent::SessionJoined), BrokerAction::Exit);
    assert_eq!(conn.phase(), Phase::Stopped);
    assert!(conn.is_stopped());
}

#[test]
fn a_vanished_sender_is_a_close() {
    let mut conn = SlackHTTPConn::new("t".to_string());
    assert_eq!(conn.step(BrokerEvent::Disconnected), BrokerAction::CloseSession);
    assert_eq!(conn.phase(), Phase::Closing);
    assert_eq!(conn.step(BrokerEvent::SessionJoined), BrokerAction::Exit);
    assert_eq!(conn.phase(), Phase::Stopped);
}

#[test]
fn nothing_is_served_after_close() {
    let mut conn = SlackHTTPConn::new("t".to_string());
    conn.step(BrokerEvent::Request(Req::Close));
    assert_eq!(conn.step(BrokerEvent::Request(Req::ChannelList)), BrokerAction::Idle);
    assert_eq!(conn.step(BrokerEvent::Request(Req::Close)), BrokerAction::Idle);
    assert_eq!(conn.step(BrokerEvent::Disconnected), BrokerAction::Idle);
    assert_eq!(conn.phase(), Phase::Closing);
    conn.step(BrokerEvent::SessionJoined);
    assert_eq!(conn.step(BrokerEvent::Request(Req::UserList)), BrokerAction::Idle);
    assert_eq!(conn.step(BrokerEvent::SessionJoined), BrokerAction::Idle);
    assert_eq!(conn.step(BrokerEvent::Disconnected), BrokerAction::Idle);
    assert_eq!(conn.phase(), Phase::Stopped);
}

#[test]
fn a_join_report_while_running_changes_nothing() {
    let mut conn = SlackHTTPConn::new("t".to_string());
    assert_eq!(conn.step(BrokerEvent::SessionJoined), BrokerAction::Idle);
    assert_eq!(conn.phase(), Phase::Running);
    assert_eq!(conn.step(BrokerEvent::Request(Req::UserList)), spawn("t", Call::UserList));
}

#[test]
fn run_of_nothing_does_nothing() {
    let mut conn = SlackHTTPConn::new("t".to_string());
    assert_eq!(conn.run(Vec::new()), Vec::new());
    assert_eq!(conn.phase(), Phase::Running);
}

#[test]
fn run_gives_the_action_of_each_step() {
    let events = || {
        vec![
            BrokerEvent::Request(Req::ImList),
            BrokerEvent::SessionJoined,
            BrokerEvent::Request(Req::ChannelHistory("general".to_string())),
            BrokerEvent::Disconnected,
            BrokerEvent::Request(Req::UserList),
            BrokerEvent::SessionJoined,
            BrokerEvent::Request(Req::Close),
        ]
    };
    let mut stepped = SlackHTTPConn::new("t".to_string());
    let by_step: Vec<BrokerAction> = events().into_iter().map(|e| stepped.step(e)).collect();
    let mut batched = SlackHTTPConn::new("t".to_string());
    let by_batch = batched.run(events());
    assert_eq!(by_batch, by_step);
    assert_eq!(
        by_batch,
        vec![
            spawn("t", Call::ImList { limit: 5 }),
            BrokerAction::Idle,
            spawn("t", history("general")),
            BrokerAction::CloseSession,
            BrokerAction::Idle,
            BrokerAction::Exit,
            BrokerAction::Idle,
        ]
    );
    assert_eq!(batched.phase(), Phase::Stopped);
    assert_eq!(stepped.phase(), Phase::Stopped);
}

#[test]
fn list_channels_list_users_close() {
    let mut conn = SlackHTTPConn::new("t".to_string());
    let actions = conn.run(vec![
        BrokerEvent::Request(Req::ChannelList),
        BrokerEvent::Request(Req::UserList),
        BrokerEvent::Request(Req::Close),
    ]);
    assert_eq!(
        actions,
        vec![spawn("t", Call::ChannelList), spawn("t", Call::UserList), BrokerAction::CloseSession]
    );
    assert_eq!(conn.phase(), Phase::Closing);

    // The two workers race with the shutdown: each may or may not answer.
    let channels: slack_api::Channel = serde_json::from_str("{\"id\":\"C1\"}").unwrap();
    let outcomes = vec![
        (Ok(Payload::Channels(Some(vec![channels]))), Err(CallFailed)),
        (Err(CallFailed), Err(CallFailed)),
    ];
    for (first, second) in outcomes {
        let mut seen = 0;
        for resp in [respond(Call::ChannelList, first), respond(Call::UserList, second)] {
            match resp {
                Some(Resp::ChannelList(_)) | Some(Resp::UserList(_)) => seen += 1,
                Some(other) => panic!("unexpected {:?}", other),
                None => {}
            }
        }
        assert!(seen <= 2);
    }

    // The join completes the shutdown, and nothing is dispatched after it.
    assert_eq!(conn.step(BrokerEvent::SessionJoined), BrokerAction::Exit);
    assert!(conn.is_stopped());
    assert_eq!(conn.step(BrokerEvent::Request(Req::ChannelList)), BrokerAction::Idle);
}

#[test]
fn a_failed_history_call_does_not_stop_the_broker() {
    let mut conn = SlackHTTPConn::new("t".to_string());
    let action = conn.step(BrokerEvent::Request(Req::ChannelHistory("general".to_string())));
    let call = match action {
        BrokerAction::Spawn { token, call } => {
            assert_eq!(token, "t");
            call
        }
        other => panic!("unexpected {:?}", other),
    };
    assert_eq!(call, history("general"));
    assert!(respond(call, Err(CallFailed)).is_none());

    assert_eq!(conn.phase(), Phase::Running);
    assert_eq!(conn.step(BrokerEvent::Request(Req::UserList)), spawn("t", Call::UserList));
    assert_eq!(
        conn.step(BrokerEvent::Request(Req::ChannelHistory("general".to_string()))),
        spawn("t", history("general"))
    );
    assert_eq!(conn.phase(), Phase::Running);
}

#[test]
fn a_burst_of_requests_stays_within_the_limits() {
    let mut conn = SlackHTTPConn::new("t".to_string());
    let mut events = Vec::new();
    for i in 0..50 {
        events.push(BrokerEvent::Request(Req::ImList));
        events.push(BrokerEvent::Request(Req::ChannelHistory(format!("c{}", i))));
    }
    let actions = conn.run(events);
    assert_eq!(actions.len(), 100);
    for action in actions {
        match action {
            BrokerAction::Spawn { token, call: Call::ImList { limit } } => {
                assert_eq!(token, "t");
                assert!(limit <= 5);
            }
            BrokerAction::Spawn {
                token,
                call: Call::ChannelHistory { count, oldest, latest, .. },
            } => {
                assert_eq!(token, "t");
                assert!(count <= 10);
                assert_eq!(oldest, None);
                assert_eq!(latest, None);
            }
            other => panic!("unexpected {:?}", other),
        }
    }
    assert_eq!(conn.phase(), Phase::Running);
}

#[test]
fn spawn_gives_a_running_broker_and_one_connecting_session_with_the_same_token() {
    let (conn, session, first) = slack_tui::slack_conn::spawn("xoxp-7".to_string());
    assert_eq!(conn.phase(), Phase::Running);
    assert_eq!(conn.token(), "xoxp-7");
    assert_eq!(session.state(), slack_tui::slack_conn::session::WsState::Connecting);
    match first {
        slack_tui::slack_conn::session::WsAction::Start(token) => assert_eq!(token, "xoxp-7"),
        other => panic!("unexpected {:?}", other),
    }
}
