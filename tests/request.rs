use xdcc::engine::{Engine, DEFAULT_TIMEOUT_SECS};
use xdcc::request::{
    await_channel, await_offer, pack_request_text, wait_for_dcc_response,
    wait_for_first_private_message, Action, Event, Incoming, RequestError, Stage,
};

fn privmsg(target: &str, text: &str) -> Incoming {
    Incoming::ChannelMessage { target: target.to_string(), text: text.to_string() }
}

fn request() -> xdcc::request::Request {
    Engine::default().create_request(
        "irc.example.net".to_string(),
        "#files".to_string(),
        "botname".to_string(),
        42,
    )
}

#[test]
fn lib_should_wait_for_dcc_message() {
    let stream = vec![privmsg("botname", "DCC SEND \"ubuntu.iso\" 3232235777 5000 1048576")];
    let (_, res) = wait_for_dcc_response(&stream, 0).unwrap();
    assert_eq!(res.filename, "ubuntu.iso");
}

#[test]
fn lib_should_wait_for_private_message() {
    let stream = vec![Incoming::Other, privmsg("botname", "hello world")];
    wait_for_first_private_message(&stream).unwrap();
}

#[test]
fn lib_should_fail_if_no_private_message() {
    let stream = vec![Incoming::Other];
    wait_for_first_private_message(&stream).unwrap_err();
}

#[test]
fn request_should_wait_for_dcc_message() {
    let stream = vec![privmsg("botname", "DCC SEND \"ubuntu.iso\" 3232235777 5000 1048576")];
    let (_, res) = wait_for_dcc_response(&stream, 0).unwrap();
    assert_eq!(res.filename, "ubuntu.iso");
}

#[test]
fn request_should_wait_for_private_message() {
    let stream = vec![Incoming::Other, privmsg("botname", "hello world")];
    wait_for_first_private_message(&stream).unwrap();
}

#[test]
fn request_should_fail_if_no_private_message() {
    let stream = vec![Incoming::Other];
    wait_for_first_private_message(&stream).unwrap_err();
}

#[test]
fn first_private_message_skips_ping() {
    let stream = vec![Incoming::Other, privmsg("botname", "hello world"), Incoming::Other];
    assert_eq!(wait_for_first_private_message(&stream), Ok(2));
}

#[test]
fn only_pings_close_the_channel() {
    let stream = vec![Incoming::Other, Incoming::Other];
    assert_eq!(wait_for_first_private_message(&stream), Err(RequestError::ChannelClosed));
    assert_eq!(wait_for_first_private_message(&vec![]), Err(RequestError::ChannelClosed));
}

#[test]
fn dcc_wait_continues_after_readiness() {
    let stream = vec![
        Incoming::Other,
        privmsg("#files", "welcome"),
        privmsg("botname", "queued, please wait"),
        Incoming::Other,
        privmsg("botname", "DCC SEND \"a.bin\" 16909060 4000 10"),
        privmsg("botname", "DCC SEND \"b.bin\" 1 2 3"),
    ];
    let from = wait_for_first_private_message(&stream).unwrap();
    assert_eq!(from, 2);
    let (next, res) = wait_for_dcc_response(&stream, from).unwrap();
    assert_eq!(next, 5);
    assert_eq!(res.filename, "a.bin");
    assert_eq!(res.address.octets(), [1, 2, 3, 4]);
    assert_eq!(res.port, 4000);
    assert_eq!(res.filesize, 10);
}

#[test]
fn dcc_wait_without_offer_closes() {
    let stream = vec![privmsg("botname", "no such pack"), Incoming::Other];
    assert!(matches!(wait_for_dcc_response(&stream, 0), Err(RequestError::ChannelClosed)));
}

#[test]
fn await_channel_outcomes() {
    assert_eq!(await_channel(&Event::Message(Incoming::Other)), None);
    assert_eq!(await_channel(&Event::Message(privmsg("x", "hi"))), Some(Ok(())));
    assert_eq!(await_channel(&Event::StreamEnded), Some(Err(RequestError::ChannelClosed)));
    assert_eq!(await_channel(&Event::TimedOut), Some(Err(RequestError::Timeout)));
}

#[test]
fn await_offer_outcomes() {
    assert!(await_offer(&Event::Message(Incoming::Other)).is_none());
    assert!(await_offer(&Event::Message(privmsg("b", "hello"))).is_none());
    assert!(matches!(await_offer(&Event::StreamEnded), Some(Err(RequestError::ChannelClosed))));
    assert!(matches!(await_offer(&Event::TimedOut), Some(Err(RequestError::Timeout))));
    match await_offer(&Event::Message(privmsg("b", "DCC SEND \"f\" 1 2 3"))) {
        Some(Ok(res)) => assert_eq!(res.filename, "f"),
        other => panic!("unexpected {:?}", other),
    }
}

#[test]
fn pack_request_texts() {
    assert_eq!(pack_request_text(42), "xdcc send #42");
    assert_eq!(pack_request_text(0), "xdcc send #0");
    assert_eq!(pack_request_text(u64::MAX), "xdcc send #18446744073709551615");
}

#[test]
fn request_runs_through_its_stages() {
    let req = request();
    let (stage, action) = req.on_event(Stage::AwaitingChannel, &Event::Message(Incoming::Other));
    assert_eq!(stage, Stage::AwaitingChannel);
    assert!(matches!(action, Action::Wait));

    let (stage, action) =
        req.on_event(Stage::AwaitingChannel, &Event::Message(privmsg("#files", "hi")));
    assert_eq!(stage, Stage::AwaitingOffer);
    match action {
        Action::SendPackRequest { target, text } => {
            assert_eq!(target, "botname");
            assert_eq!(text, "xdcc send #42");
        }
        other => panic!("unexpected {:?}", other),
    }

    let (stage, action) =
        req.on_event(Stage::AwaitingOffer, &Event::Message(privmsg("botname", "busy")));
    assert_eq!(stage, Stage::AwaitingOffer);
    assert!(matches!(action, Action::Wait));

    let offer = Event::Message(privmsg("botname", "DCC SEND \"ubuntu.iso\" 3232235777 5000 1048576"));
    match req.on_event(Stage::AwaitingOffer, &offer).1 {
        Action::Finish(Ok(res)) => {
            assert_eq!(res.filename, "ubuntu.iso");
            assert_eq!(res.port, 5000);
        }
        other => panic!("unexpected {:?}", other),
    }
}

#[test]
fn timeout_is_distinct_from_closed() {
    let req = request();
    for stage in [Stage::AwaitingChannel, Stage::AwaitingOffer] {
        match req.on_event(stage, &Event::TimedOut).1 {
            Action::Finish(Err(e)) => assert_eq!(e, RequestError::Timeout),
            other => panic!("unexpected {:?}", other),
        }
        match req.on_event(stage, &Event::StreamEnded).1 {
            Action::Finish(Err(e)) => assert_eq!(e, RequestError::ChannelClosed),
            other => panic!("unexpected {:?}", other),
        }
    }
}

#[test]
fn create_request_keeps_its_arguments() {
    let req = request();
    assert_eq!(req.info.server, "irc.example.net");
    assert_eq!(req.info.channel, "#files");
    assert_eq!(req.info.botname, "botname");
    assert_eq!(req.info.packnum, 42);
    assert_eq!(req.timeout_secs(), DEFAULT_TIMEOUT_SECS);
    assert_eq!(req.timeout_secs(), 30);
}

#[test]
fn connection_config_for_request() {
    let req = request();
    let config = req.connection_config();
    assert_eq!(config.server, "irc.example.net");
    assert_eq!(config.channels, vec!["#files".to_string()]);
    assert!(config.username.is_none());
    assert!(config.nickname.as_deref().map_or(false, |n| !n.is_empty()));
}

#[test]
fn nicknames_are_generated() {
    let engine = Engine::default();
    let a = engine.0.next_nickname().unwrap();
    let b = engine.0.next_nickname().unwrap();
    assert!(!a.is_empty() && !b.is_empty());
    assert!(engine.0.next_username().is_none());
}
