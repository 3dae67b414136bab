use soundpad_remote_client::response_code::{decode, ErrorCode, SuccessCode};

#[test]
fn success_code() {
    assert_eq!(Ok(SuccessCode::Okay), decode("R-200".as_bytes()));
}

#[test]
fn no_content_code() {
    assert_eq!(Err(ErrorCode::NoContent), decode("R-204".as_bytes()));
}

#[test]
fn bad_request_code() {
    assert_eq!(Err(ErrorCode::BadRequest), decode("R-400".as_bytes()));
}

#[test]
fn command_not_found_code() {
    assert_eq!(
        Err(ErrorCode::CommandNotFound),
        decode("R-404: Command not found.".as_bytes())
    );
}

#[test]
fn not_found_detail() {
    assert_eq!(
        Err(ErrorCode::NotFound("foo".as_bytes().to_vec())),
        decode("R-404: foo".as_bytes())
    );
}

#[test]
fn unknown_text() {
    assert_eq!(
        Err(ErrorCode::Unknown("garbage".as_bytes().to_vec())),
        decode("garbage".as_bytes())
    );
}

#[test]
fn decoding_never_rejects_an_input() {
    // a few awkward shapes: short, empty, truncated tokens, non-ASCII
    for raw in [
        &b""[..],
        b"R",
        b"R-",
        b"R-404",
        b"R-404:",
        b"R-404: ",
        b"R-2000",
        b"\xff\xfe\x00",
    ] {
        let _ = decode(raw);
    }
    assert_eq!(
        Err(ErrorCode::NotFound(Vec::new())),
        decode("R-404: ".as_bytes())
    );
    assert_eq!(Err(ErrorCode::NotFound(b":".to_vec())), decode("R-404:".as_bytes()));
    assert_eq!(Ok(SuccessCode::Okay), decode("R-2000".as_bytes()));
}

#[test]
fn success_with_listing_body() {
    // the listing reply carries a body after the status token
    assert_eq!(
        Ok(SuccessCode::Okay),
        decode("R-200\r\n<Soundlist></Soundlist>".as_bytes())
    );
}
