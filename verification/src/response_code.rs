//! Decoding the host application's reply text.
//!
//! Every reply begins with a fixed-width status token `R-<code>`,
//! optionally followed by `: <detail>`. Decoding is total: any input at
//! all maps to exactly one outcome, unknown text included.

use vstd::prelude::*;

use crate::ascii::{ascii_bytes, bytes_eq, bytes_of, has_prefix, starts_with, sub_vec};

verus! {

/// The reply signalled success.
#[derive(Debug, Clone, Copy, PartialEq, Eq, Structural)]
pub enum SuccessCode {
    Okay,
}

/// The reply signalled one of the modeled failure classes.
#[derive(Debug, Clone, PartialEq, Eq)]
pub enum ErrorCode {
    /// The command was understood, but there was nothing to act on.
    NoContent,
    /// The command was syntactically wrong.
    BadRequest,
    /// The host application does not know the command.
    CommandNotFound,
    /// Something named by the command was not found; the detail text says what.
    NotFound(Vec<u8>),
    /// The reply did not carry a recognizable status token; the full text is kept.
    Unknown(Vec<u8>),
}

/// A decoded reply: success, or one of the failure classes.
pub type ResponseCode = Result<SuccessCode, ErrorCode>;

/// The mathematical image of a decoded reply.
pub enum ResponseOutcome {
    Success,
    NoContent,
    BadRequest,
    CommandNotFound,
    NotFound(Seq<u8>),
    Unknown(Seq<u8>),
}

/// The outcome a [`ResponseCode`] stands for.
pub open spec fn outcome_of(r: ResponseCode) -> ResponseOutcome {
    match r {
        Ok(SuccessCode::Okay) => ResponseOutcome::Success,
        Err(ErrorCode::NoContent) => ResponseOutcome::NoContent,
        Err(ErrorCode::BadRequest) => ResponseOutcome::BadRequest,
        Err(ErrorCode::CommandNotFound) => ResponseOutcome::CommandNotFound,
        Err(ErrorCode::NotFound(d)) => ResponseOutcome::NotFound(d@),
        Err(ErrorCode::Unknown(d)) => ResponseOutcome::Unknown(d@),
    }
}

/// The outcome of any reply text: the leading status token decides; an
/// `R-404` reply whose detail is exactly `Command not found.` means the
/// command itself was rejected, any other detail names the missing thing;
/// text without a known token is kept whole as `Unknown`.
pub open spec fn spec_decode(s: Seq<u8>) -> ResponseOutcome {
    if starts_with(s, bytes_of("R-200"@)) {
        ResponseOutcome::Success
    } else if starts_with(s, bytes_of("R-204"@)) {
        ResponseOutcome::NoContent
    } else if starts_with(s, bytes_of("R-400"@)) {
        ResponseOutcome::BadRequest
    } else if starts_with(s, bytes_of("R-404: "@)) {
        let detail = s.skip(bytes_of("R-404: "@).len() as int);
        if detail == bytes_of("Command not found."@) {
            ResponseOutcome::CommandNotFound
        } else {
            ResponseOutcome::NotFound(detail)
        }
    } else if starts_with(s, bytes_of("R-404"@)) {
        ResponseOutcome::NotFound(s.skip(bytes_of("R-404"@).len() as int))
    } else {
        ResponseOutcome::Unknown(s)
    }
}

/// Decode a raw reply. Total: every byte string yields exactly one
/// outcome, and the outcome is the one [`spec_decode`] assigns.
pub fn decode(raw: &[u8]) -> (r: ResponseCode)
    ensures
        outcome_of(r) == spec_decode(raw@),
{
    let ok_tok = "R-200";
    let no_content_tok = "R-204";
    let bad_request_tok = "R-400";
    let not_found_tok = "R-404";
    let not_found_detail_tok = "R-404: ";
    let command_not_found_text = "Command not found.";
    proof {
        reveal_strlit("R-200");
        reveal_strlit("R-204");
        reveal_strlit("R-400");
        reveal_strlit("R-404");
        reveal_strlit("R-404: ");
        reveal_strlit("Command not found.");
        assert(ok_tok.is_ascii());
        assert(no_content_tok.is_ascii());
        assert(bad_request_tok.is_ascii());
        assert(not_found_tok.is_ascii());
        assert(not_found_detail_tok.is_ascii());
        assert(command_not_found_text.is_ascii());
    }
    let p200 = ascii_bytes(ok_tok);
    let p204 = ascii_bytes(no_content_tok);
    let p400 = ascii_bytes(bad_request_tok);
    let p404 = ascii_bytes(not_found_tok);
    let p404d = ascii_bytes(not_found_detail_tok);
    let cnf = ascii_bytes(command_not_found_text);

    if has_prefix(raw, p200.as_slice()) {
        Ok(SuccessCode::Okay)
    } else if has_prefix(raw, p204.as_slice()) {
        Err(ErrorCode::NoContent)
    } else if has_prefix(raw, p400.as_slice()) {
        Err(ErrorCode::BadRequest)
    } else if has_prefix(raw, p404d.as_slice()) {
        let detail = sub_vec(raw, p404d.len(), raw.len());
        proof {
            assert(detail@ =~= raw@.skip(bytes_of("R-404: "@).len() as int));
        }
        if bytes_eq(detail.as_slice(), cnf.as_slice()) {
            Err(ErrorCode::CommandNotFound)
        } else {
            Err(ErrorCode::NotFound(detail))
        }
    } else if has_prefix(raw, p404.as_slice()) {
        let detail = sub_vec(raw, p404.len(), raw.len());
        proof {
            assert(detail@ =~= raw@.skip(bytes_of("R-404"@).len() as int));
        }
        Err(ErrorCode::NotFound(detail))
    } else {
        let whole = sub_vec(raw, 0, raw.len());
        proof {
            assert(whole@ =~= raw@);
        }
        Err(ErrorCode::Unknown(whole))
    }
}

} // verus!
