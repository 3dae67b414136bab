use soundpad_remote_client::command::{Command, ReplyMode};
use soundpad_remote_client::connection::{
    run_actor, Channel, Connection, DeliveryOutcome, IoError, IoErrorKind, IoEvent,
};

fn channel(replies: Vec<&str>, script: Vec<IoEvent>) -> Channel {
    Channel::of_script(
        replies.into_iter().map(|r| r.as_bytes().to_vec()).collect(),
        script,
    )
}

#[test]
fn round_trip_under_would_block() {
    // the peer scripts one reply; writes are chopped and interrupted
    let script = vec![
        IoEvent::Block,
        IoEvent::Ready(2),
        IoEvent::Block,
        IoEvent::Ready(1),
        IoEvent::Block,
    ];
    let mut conn = Connection::over(channel(vec!["R-200: hello"], script));
    let reply = conn.send_and_receive("ping".as_bytes()).unwrap();
    assert_eq!("R-200: hello".as_bytes(), reply.as_slice());
    assert_eq!("ping".as_bytes(), conn.channel.wire.as_slice());
}

#[test]
fn long_replies_accumulate_across_reads() {
    // a reply longer than the read buffer arrives whole
    let long_reply = "R-200".to_string() + &"x".repeat(9000);
    let mut conn = Connection::over(channel(vec![&long_reply], vec![IoEvent::Block]));
    let reply = conn.send_and_receive("GetSoundList()".as_bytes()).unwrap();
    assert_eq!(long_reply.as_bytes(), reply.as_slice());
}

#[test]
fn injected_failure_surfaces_as_error() {
    let err = IoError { kind: IoErrorKind::Other, raw_os_error: None };
    let mut conn = Connection::over(channel(vec!["R-200"], vec![IoEvent::Fail(err)]));
    assert_eq!(Err(err), conn.send_and_receive("ping".as_bytes()));
}

#[test]
fn commands_reach_the_wire_in_queue_order() {
    let queue = vec![
        Command::new(b"DoPlaySound(1)".to_vec()).awaited(),
        Command::new(b"DoPlaySound(2)".to_vec()).awaited(),
        Command::new(b"GetSoundList()".to_vec()).awaited(),
    ];
    let mut conn = Connection::over(channel(vec!["R-200", "R-200", "R-200"], vec![]));
    let log = run_actor(queue, &mut conn);
    assert_eq!(3, log.len());
    assert_eq!(
        "DoPlaySound(1)DoPlaySound(2)GetSoundList()".as_bytes(),
        conn.channel.wire.as_slice()
    );
    for e in &log {
        assert_eq!(Ok(b"R-200".to_vec()), e.response);
    }
}

#[test]
fn cooldowns_space_successive_sends() {
    let queue = vec![
        Command::new(b"a".to_vec()).with_cooldown(5000).awaited(),
        Command::new(b"b".to_vec()).with_cooldown(7000).awaited(),
        Command::new(b"c".to_vec()).awaited(),
    ];
    let mut conn = Connection::over(channel(vec!["R-200", "R-200", "R-200"], vec![]));
    let log = run_actor(queue, &mut conn);
    assert_eq!(0, log[0].sent_at);
    assert!(log[1].sent_at >= log[0].sent_at + 5000);
    assert!(log[2].sent_at >= log[1].sent_at + 7000);
}

#[test]
fn abandoned_reply_does_not_stop_the_actor() {
    // the second caller dropped its await; the third never listened
    let abandoned = Command {
        message: b"b".to_vec(),
        cooldown: 0,
        reply: ReplyMode::Awaited { listening: false },
    };
    let queue = vec![
        Command::new(b"a".to_vec()).awaited(),
        abandoned,
        Command::new(b"c".to_vec()),
    ];
    let mut conn = Connection::over(channel(vec!["R-200", "R-200", "R-200"], vec![]));
    let log = run_actor(queue, &mut conn);
    assert_eq!(3, log.len());
    assert_eq!(DeliveryOutcome::Delivered, log[0].delivery);
    assert_eq!(DeliveryOutcome::ListenerGone, log[1].delivery);
    assert_eq!(DeliveryOutcome::Unawaited, log[2].delivery);
    assert_eq!("abc".as_bytes(), conn.channel.wire.as_slice());
}

#[test]
fn one_failed_exchange_does_not_starve_the_rest() {
    let err = IoError { kind: IoErrorKind::Other, raw_os_error: None };
    let queue = vec![
        Command::new(b"a".to_vec()).awaited(),
        Command::new(b"b".to_vec()).awaited(),
    ];
    let mut conn = Connection::over(channel(vec!["R-200", "R-200"], vec![IoEvent::Fail(err)]));
    let log = run_actor(queue, &mut conn);
    assert_eq!(2, log.len());
    assert_eq!(Err(err), log[0].response);
    assert!(log[1].response.is_ok());
}

#[test]
fn missing_reply_reads_as_empty() {
    let queue = vec![
        Command::new(b"a".to_vec()).awaited(),
        Command::new(b"b".to_vec()).awaited(),
    ];
    let mut conn = Connection::over(channel(vec!["R-200"], vec![]));
    let log = run_actor(queue, &mut conn);
    assert_eq!(Ok(b"R-200".to_vec()), log[0].response);
    assert_eq!(Ok(Vec::new()), log[1].response);
}
