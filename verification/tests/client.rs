use soundpad_remote_client::builder::{ClientBuilder, ConnectError};
use soundpad_remote_client::client::{Client, Error};
use soundpad_remote_client::connection::{Channel, Connection, IoError, IoErrorKind};
use soundpad_remote_client::response_code::{ErrorCode, SuccessCode};
use soundpad_remote_client::soundlist::{Date, Sound};

fn conn_with_reply(reply: &str) -> Connection {
    Connection::over(Channel::of_script(vec![reply.as_bytes().to_vec()], vec![]))
}

fn cue() -> Sound {
    Sound {
        index: 3,
        title: b"cue".to_vec(),
        url: b"cue.mp3".to_vec(),
        duration: 3,
        artist: None,
        added_on: Date { year: 2022, month: 11, day: 27 },
        last_played_on: Date { year: 2022, month: 11, day: 27 },
        play_count: 9,
    }
}

#[test]
fn play_issues_the_play_command_and_schedules_the_cooldown() {
    let client = Client { debounce: 0 };
    let mut conn = conn_with_reply("R-200");
    assert_eq!(Ok(()), client.play_sound(&mut conn, &cue()));
    assert_eq!("DoPlaySound(3)".as_bytes(), conn.channel.wire.as_slice());
    // a three-second cooldown stands between this and the next send
    assert_eq!(conn.now + 3000, conn.deadline);
}

#[test]
fn debounce_adds_to_the_cooldown() {
    let client = Client { debounce: 800 };
    let mut conn = conn_with_reply("R-200");
    assert_eq!(Ok(()), client.play_sound(&mut conn, &cue()));
    assert_eq!(conn.now + 3800, conn.deadline);
}

#[test]
fn play_maps_no_content_to_not_found() {
    let client = Client { debounce: 0 };
    let mut conn = conn_with_reply("R-204");
    assert_eq!(
        Err(Error::NotFound { missing: b"cue at index 3".to_vec() }),
        client.play_sound(&mut conn, &cue())
    );
}

#[test]
fn play_maps_rejections_to_invalid_command() {
    let client = Client { debounce: 0 };
    let mut conn = conn_with_reply("R-400");
    assert_eq!(
        Err(Error::InvalidCommand(b"DoPlaySound(3)".to_vec())),
        client.play_sound(&mut conn, &cue())
    );
    let mut conn = conn_with_reply("R-404: Command not found.");
    assert_eq!(
        Err(Error::InvalidCommand(b"DoPlaySound(3)".to_vec())),
        client.play_sound(&mut conn, &cue())
    );
}

#[test]
fn play_passes_other_failure_text_through() {
    let client = Client { debounce: 0 };
    let mut conn = conn_with_reply("R-404: foo");
    assert_eq!(Err(Error::Other(b"foo".to_vec())), client.play_sound(&mut conn, &cue()));
    let mut conn = conn_with_reply("what even is this");
    assert_eq!(
        Err(Error::Other(b"what even is this".to_vec())),
        client.play_sound(&mut conn, &cue())
    );
}

#[test]
fn custom_command_hands_back_the_decoded_reply() {
    let client = Client { debounce: 0 };
    let mut conn = conn_with_reply("R-200");
    let rc = client
        .custom_command(&mut conn, b"DoStopSound()".to_vec(), 250)
        .unwrap();
    assert_eq!(Ok(SuccessCode::Okay), rc);
    assert_eq!("DoStopSound()".as_bytes(), conn.channel.wire.as_slice());
    assert_eq!(conn.now + 250, conn.deadline);

    let mut conn = conn_with_reply("R-204");
    let rc = client
        .custom_command(&mut conn, b"DoStopSound()".to_vec(), 0)
        .unwrap();
    assert_eq!(Err(ErrorCode::NoContent), rc);
}

#[test]
fn sound_list_is_fetched_and_parsed() {
    let listing = r#"R-200
<Soundlist>
  <Sound index="3" url="cue.mp3" artist="" title="cue" duration="0:03" addedOn="2022-11-27" lastPlayedOn="2022-11-27" playCount="9"/>
</Soundlist>"#;
    let client = Client { debounce: 0 };
    let mut conn = conn_with_reply(listing);
    let sounds = client.get_sound_list(&mut conn).unwrap();
    assert_eq!("GetSoundList()".as_bytes(), conn.channel.wire.as_slice());
    assert_eq!(1, sounds.len());
    assert_eq!(cue(), sounds[0]);
    // a listing command carries no cooldown
    assert_eq!(conn.now, conn.deadline);
}

#[test]
fn unreadable_listing_is_a_bad_response() {
    let client = Client { debounce: 0 };
    let mut conn = conn_with_reply(r#"R-200 <Sound index="x" y"#);
    assert_eq!(Err(Error::BadResponse), client.get_sound_list(&mut conn));
}

#[test]
fn connect_classifies_a_busy_endpoint() {
    // the endpoint reports the pipe-busy code: no session, no actor
    let busy = IoError { kind: IoErrorKind::Other, raw_os_error: Some(231) };
    let r = ClientBuilder::new().connect(Err(busy));
    assert!(matches!(r, Err(ConnectError::Busy)));

    // a refused connection means the same
    let refused = IoError { kind: IoErrorKind::ConnectionRefused, raw_os_error: None };
    let r = ClientBuilder::new().connect(Err(refused));
    assert!(matches!(r, Err(ConnectError::Busy)));
}

#[test]
fn connect_classifies_an_absent_endpoint() {
    let absent = IoError { kind: IoErrorKind::NotFound, raw_os_error: Some(2) };
    let r = ClientBuilder::new().connect(Err(absent));
    assert!(matches!(r, Err(ConnectError::NotFound { .. })));

    let odd = IoError { kind: IoErrorKind::Other, raw_os_error: Some(5) };
    let r = ClientBuilder::new().connect(Err(odd));
    assert!(matches!(r, Err(ConnectError::Other(_))));
}

#[test]
fn connect_opens_a_fresh_session() {
    let session = ClientBuilder::new()
        .debounce(1200)
        .connect(Ok(Channel::of_script(vec![], vec![])))
        .unwrap();
    assert_eq!(1200, session.client.debounce);
    assert_eq!(0, session.connection.now);
    assert_eq!(0, session.connection.deadline);
}

#[test]
fn connection_failure_surfaces_as_such() {
    let failing = Channel::of_script(
        vec![b"R-200".to_vec()],
        vec![soundpad_remote_client::connection::IoEvent::Fail(IoError {
            kind: IoErrorKind::Other,
            raw_os_error: None,
        })],
    );
    let client = Client { debounce: 0 };
    let mut conn = Connection::over(failing);
    assert!(matches!(
        client.play_sound(&mut conn, &cue()),
        Err(Error::Connection(_))
    ));
}

#[test]
fn failures_print_as_one_line_reports() {
    let e = Error::NotFound { missing: b"cue at index 3".to_vec() };
    assert_eq!("Not found: cue at index 3".as_bytes(), e.message().as_slice());
    let e = Error::InvalidCommand(b"DoPlaySound(3)".to_vec());
    assert_eq!(
        "Soundpad cannot handle this command: DoPlaySound(3)".as_bytes(),
        e.message().as_slice()
    );
    assert_eq!("Bad response".as_bytes(), Error::BadResponse.message().as_slice());
    assert_eq!("The actor is gone".as_bytes(), Error::Disconnected.message().as_slice());
    assert_eq!(
        "Soundpad is not accepting connections".as_bytes(),
        ConnectError::Busy.message().as_slice()
    );
}
