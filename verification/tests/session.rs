use slack_tui::slack_conn::session::WsAction;
use slack_tui::slack_conn::session::WsEvent;
use slack_tui::slack_conn::session::WsState;
use slack_tui::slack_conn::Resp;
use slack_tui::slack_conn::SlackWSConn;
use slack_tui::slack_conn::SlackWSReq;
use websocket::OwnedMessage;

fn connecting() -> SlackWSConn {
    SlackWSConn::open("t".to_string()).0
}

fn handshaking() -> SlackWSConn {
    let mut conn = connecting();
    conn.step(WsEvent::Started(Some("wss://example.test/rtm".to_string())));
    conn
}

fn open() -> SlackWSConn {
    let mut conn = handshaking();
    conn.step(WsEvent::Connected);
    conn
}

fn closed() -> SlackWSConn {
    let mut conn = open();
    conn.step(WsEvent::Control(SlackWSReq::Close));
    conn
}

fn every_event() -> Vec<WsEvent> {
    vec![
        WsEvent::Started(Some("wss://other.test".to_string())),
        WsEvent::Started(None),
        WsEvent::StartFailed,
        WsEvent::Connected,
        WsEvent::ConnectFailed,
        WsEvent::Message(OwnedMessage::Text("late".to_string())),
        WsEvent::ConsumerGone,
        WsEvent::TransportFailed,
        WsEvent::ReaderFinished,
        WsEvent::WriterFinished,
        WsEvent::Control(SlackWSReq::Close),
    ]
}

#[test]
fn open_starts_by_asking_for_the_url() {
    let (conn, action) = SlackWSConn::open("xoxp-1".to_string());
    assert_eq!(conn.state(), WsState::Connecting);
    assert!(!conn.is_closed());
    assert!(matches!(action, WsAction::Start(token) if token == "xoxp-1"));
}

#[test]
fn a_url_leads_to_the_handshake() {
    let mut conn = connecting();
    let action = conn.step(WsEvent::Started(Some("wss://example.test/rtm".to_string())));
    assert!(matches!(action, WsAction::Connect(url) if url == "wss://example.test/rtm"));
    assert_eq!(conn.state(), WsState::Handshaking);
}

#[test]
fn an_answer_without_a_url_is_fatal() {
    let mut conn = connecting();
    assert!(matches!(conn.step(WsEvent::Started(None)), WsAction::Stop));
    assert_eq!(conn.state(), WsState::Closed);
}

#[test]
fn a_failed_start_is_fatal() {
    let mut conn = connecting();
    assert!(matches!(conn.step(WsEvent::StartFailed), WsAction::Stop));
    assert!(conn.is_closed());
}

#[test]
fn a_connection_opens_the_session() {
    let mut conn = handshaking();
    assert!(matches!(conn.step(WsEvent::Connected), WsAction::Continue));
    assert_eq!(conn.state(), WsState::Open);
}

#[test]
fn a_failed_handshake_is_fatal() {
    let mut conn = handshaking();
    assert!(matches!(conn.step(WsEvent::ConnectFailed), WsAction::Stop));
    assert_eq!(conn.state(), WsState::Closed);
}

#[test]
fn every_inbound_message_is_forwarded_as_it_came() {
    let mut conn = open();
    let frames = vec![
        OwnedMessage::Text("{\"type\":\"hello\"}".to_string()),
        OwnedMessage::Binary(vec![1, 2, 3]),
        OwnedMessage::Ping(vec![9]),
        OwnedMessage::Pong(Vec::new()),
        OwnedMessage::Close(None),
    ];
    for frame in frames {
        match conn.step(WsEvent::Message(frame.clone())) {
            WsAction::Forward(Resp::WS(forwarded)) => assert_eq!(forwarded, frame),
            other => panic!("unexpected {:?}", other),
        }
        assert_eq!(conn.state(), WsState::Open);
    }
}

#[test]
fn a_vanished_consumer_ends_the_session() {
    let mut conn = open();
    let frame = OwnedMessage::Text("presence".to_string());
    assert!(matches!(conn.step(WsEvent::Message(frame)), WsAction::Forward(_)));
    assert!(matches!(conn.step(WsEvent::ConsumerGone), WsAction::Stop));
    assert!(conn.is_closed());
}

#[test]
fn the_close_signal_ends_an_open_session() {
    let mut conn = open();
    assert!(matches!(conn.step(WsEvent::Control(SlackWSReq::Close)), WsAction::Stop));
    assert_eq!(conn.state(), WsState::Closed);
}

#[test]
fn the_close_signal_ends_a_session_that_is_not_yet_open() {
    let mut conn = connecting();
    assert!(matches!(conn.step(WsEvent::Control(SlackWSReq::Close)), WsAction::Stop));
    assert!(conn.is_closed());
    let mut conn = handshaking();
    assert!(matches!(conn.step(WsEvent::Control(SlackWSReq::Close)), WsAction::Stop));
    assert!(conn.is_closed());
}

#[test]
fn either_half_finishing_ends_both() {
    let mut conn = open();
    assert!(matches!(conn.step(WsEvent::ReaderFinished), WsAction::Stop));
    assert!(conn.is_closed());
    let mut conn = open();
    assert!(matches!(conn.step(WsEvent::WriterFinished), WsAction::Stop));
    assert!(conn.is_closed());
}

#[test]
fn a_broken_connection_ends_the_session() {
    let mut conn = open();
    assert!(matches!(conn.step(WsEvent::TransportFailed), WsAction::Stop));
    assert!(conn.is_closed());
}

#[test]
fn a_closed_session_stays_closed_and_silent() {
    for event in every_event() {
        let mut conn = closed();
        assert!(matches!(conn.step(event), WsAction::Continue));
        assert_eq!(conn.state(), WsState::Closed);
    }
}

#[test]
fn events_out_of_place_are_passed_over() {
    let out_of_place = || {
        vec![
            WsEvent::Connected,
            WsEvent::ConnectFailed,
            WsEvent::Message(OwnedMessage::Text("early".to_string())),
            WsEvent::ConsumerGone,
            WsEvent::TransportFailed,
            WsEvent::ReaderFinished,
            WsEvent::WriterFinished,
        ]
    };
    for event in out_of_place() {
        let mut conn = connecting();
        assert!(matches!(conn.step(event), WsAction::Continue));
        assert_eq!(conn.state(), WsState::Connecting);
    }
    let during_handshake = vec![
        WsEvent::Started(Some("wss://other.test".to_string())),
        WsEvent::Started(None),
        WsEvent::StartFailed,
        WsEvent::Message(OwnedMessage::Text("early".to_string())),
        WsEvent::ConsumerGone,
        WsEvent::TransportFailed,
        WsEvent::ReaderFinished,
        WsEvent::WriterFinished,
    ];
    for event in during_handshake {
        let mut conn = handshaking();
        assert!(matches!(conn.step(event), WsAction::Continue));
        assert_eq!(conn.state(), WsState::Handshaking);
    }
    let while_open = vec![
        WsEvent::Started(Some("wss://other.test".to_string())),
        WsEvent::Started(None),
        WsEvent::StartFailed,
        WsEvent::Connected,
        WsEvent::ConnectFailed,
    ];
    for event in while_open {
        let mut conn = open();
        assert!(matches!(conn.step(event), WsAction::Continue));
        assert_eq!(conn.state(), WsState::Open);
    }
}

#[test]
fn a_session_stops_once() {
    let mut conn = open();
    let mut stops = 0;
    for event in every_event() {
        if let WsAction::Stop = conn.step(event) {
            stops += 1;
        }
    }
    assert_eq!(stops, 1);
    assert!(conn.is_closed());
}
