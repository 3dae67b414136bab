//! The client face of the library: the operations a caller can ask for,
//! and the errors they can end in.

use vstd::prelude::*;

use crate::ascii::{ascii_bytes, bytes_of};
use crate::command::Command;
use crate::connection::{capped_add, later_of, Connection, IoError};
use crate::decimal::{push_u64_digits, spec_digits};
use crate::response_code::{decode, outcome_of, spec_decode, ErrorCode, ResponseCode, ResponseOutcome};
use crate::soundlist::{spec_parse_soundlist, Sound, SoundList, SoundV};

verus! {

/// What a client operation can end in, besides success.
#[derive(Debug, Clone, PartialEq, Eq)]
pub enum Error {
    /// The channel failed while talking to the host application.
    Connection(IoError),
    /// The host application rejected a command this library itself
    /// built; the payload is kept for the report.
    InvalidCommand(Vec<u8>),
    /// The named thing was not there to act on.
    NotFound { missing: Vec<u8> },
    /// The reply did not parse into the expected structured form.
    BadResponse,
    /// The host application answered with failure text of its own.
    Other(Vec<u8>),
    /// The actor is gone: its queue or the reply slot was closed before
    /// the reply came.
    Disconnected,
}

/// The one-line report each failure prints as.
pub open spec fn spec_error_message(e: Error) -> Seq<u8> {
    match e {
        Error::Connection(_) => bytes_of("Connection error"@),
        Error::InvalidCommand(m) => bytes_of("Soundpad cannot handle this command: "@) + m@,
        Error::NotFound { missing } => bytes_of("Not found: "@) + missing@,
        Error::BadResponse => bytes_of("Bad response"@),
        Error::Other(d) => bytes_of("Other error: "@) + d@,
        Error::Disconnected => bytes_of("The actor is gone"@),
    }
}

impl Error {
    /// The failure as a line of text.
    pub fn message(&self) -> (r: Vec<u8>)
        ensures
            r@ == spec_error_message(*self),
    {
        match self {
            Error::Connection(_) => {
                let lit = "Connection error";
                proof {
                    reveal_strlit("Connection error");
                    assert(lit.is_ascii());
                }
                ascii_bytes(lit)
            },
            Error::InvalidCommand(m) => {
                let lit = "Soundpad cannot handle this command: ";
                proof {
                    reveal_strlit("Soundpad cannot handle this command: ");
                    assert(lit.is_ascii());
                }
                let mut out = ascii_bytes(lit);
                let mut detail = crate::ascii::sub_vec(m.as_slice(), 0, m.len());
                proof {
                    assert(detail@ =~= m@);
                }
                out.append(&mut detail);
                out
            },
            Error::NotFound { missing } => {
                let lit = "Not found: ";
                proof {
                    reveal_strlit("Not found: ");
                    assert(lit.is_ascii());
                }
                let mut out = ascii_bytes(lit);
                let mut detail = crate::ascii::sub_vec(missing.as_slice(), 0, missing.len());
                proof {
                    assert(detail@ =~= missing@);
                }
                out.append(&mut detail);
                out
            },
            Error::BadResponse => {
                let lit = "Bad response";
                proof {
                    reveal_strlit("Bad response");
                    assert(lit.is_ascii());
                }
                ascii_bytes(lit)
            },
            Error::Other(d) => {
                let lit = "Other error: ";
                proof {
                    reveal_strlit("Other error: ");
                    assert(lit.is_ascii());
                }
                let mut out = ascii_bytes(lit);
                let mut detail = crate::ascii::sub_vec(d.as_slice(), 0, d.len());
                proof {
                    assert(detail@ =~= d@);
                }
                out.append(&mut detail);
                out
            },
            Error::Disconnected => {
                let lit = "The actor is gone";
                proof {
                    reveal_strlit("The actor is gone");
                    assert(lit.is_ascii());
                }
                ascii_bytes(lit)
            },
        }
    }
}

/// A handle for issuing commands over an established session.
///
/// The handle itself holds only configuration; the connection state
/// travels separately, owned by whoever drives the actor.
#[derive(Debug, Clone, Copy, PartialEq, Eq, Structural)]
pub struct Client {
    /// The base delay, in milliseconds, added between a playback command
    /// and whatever command follows it.
    pub debounce: u64,
}

/// The payload text of a play-by-index command.
pub open spec fn spec_play_payload(index: u64) -> Seq<u8> {
    bytes_of("DoPlaySound("@) + spec_digits(index as nat) + bytes_of(")"@)
}

/// Build the play-by-index payload.
pub fn play_payload(index: u64) -> (r: Vec<u8>)
    ensures
        r@ == spec_play_payload(index),
{
    let head = "DoPlaySound(";
    let tail = ")";
    proof {
        reveal_strlit("DoPlaySound(");
        reveal_strlit(")");
        assert(head.is_ascii());
        assert(tail.is_ascii());
    }
    let mut msg = ascii_bytes(head);
    push_u64_digits(index, &mut msg);
    let mut end = ascii_bytes(tail);
    msg.append(&mut end);
    proof {
        assert(msg@ =~= spec_play_payload(index));
    }
    msg
}

/// The cooldown after playing a sound: the configured debounce plus the
/// sound's own length, capped at the largest representable delay.
pub open spec fn spec_play_cooldown(debounce: u64, duration_secs: u64) -> u64 {
    if debounce + duration_secs * 1000 <= u64::MAX {
        (debounce + duration_secs * 1000) as u64
    } else {
        u64::MAX
    }
}

/// Compute the post-play cooldown in milliseconds.
pub fn play_cooldown(debounce: u64, duration_secs: u64) -> (r: u64)
    ensures
        r == spec_play_cooldown(debounce, duration_secs),
{
    let total: u128 = debounce as u128 + duration_secs as u128 * 1000;
    if total <= u64::MAX as u128 {
        total as u64
    } else {
        u64::MAX
    }
}

/// The text reported when a sound was not there to play: its title,
/// then ` at index `, then its catalog index.
pub open spec fn spec_missing_text(sound: SoundV) -> Seq<u8> {
    sound.title + bytes_of(" at index "@) + spec_digits(sound.index as nat)
}

fn missing_text(sound: &Sound) -> (r: Vec<u8>)
    ensures
        r@ == spec_missing_text(sound@),
{
    let mid = " at index ";
    proof {
        reveal_strlit(" at index ");
        assert(mid.is_ascii());
    }
    let mut msg: Vec<u8> = Vec::new();
    let mut title = crate::ascii::sub_vec(sound.title.as_slice(), 0, sound.title.len());
    proof {
        assert(title@ =~= sound.title@);
    }
    msg.append(&mut title);
    let mut middle = ascii_bytes(mid);
    msg.append(&mut middle);
    push_u64_digits(sound.index, &mut msg);
    proof {
        assert(msg@ =~= spec_missing_text(sound@));
    }
    msg
}

impl Client {
    /// Issue an arbitrary command with an arbitrary cooldown and hand
    /// back the decoded reply as it is.
    pub fn custom_command(&self, conn: &mut Connection, command: Vec<u8>, cooldown: u64) -> (r:
        Result<ResponseCode, Error>)
        requires
            old(conn).wf(),
        ensures
            final(conn).wf(),
            final(conn).now == later_of(old(conn).now, old(conn).deadline),
            final(conn).deadline == capped_add(final(conn).now, cooldown as u128),
            r matches Ok(rc) ==> outcome_of(rc) == spec_decode(old(conn).channel.pending_reply())
                && final(conn).channel.wire@ == old(conn).channel.wire@ + command@,
            r matches Err(e) ==> e matches Error::Connection(_) && !old(conn).channel.clean(),
            old(conn).channel.clean() ==> r is Ok && final(conn).channel.clean(),
    {
        match Command::new(command).with_cooldown(cooldown).awaited().issue(conn) {
            Ok(raw) => Ok(decode(raw.as_slice())),
            Err(e) => Err(Error::Connection(e)),
        }
    }

    /// Ask the host application for its sound catalog, with no
    /// cooldown, and read the listing in the reply body. A reply that
    /// does not parse as a listing is a `BadResponse`: the host said
    /// something this library could not understand.
    pub fn get_sound_list(&self, conn: &mut Connection) -> (r: Result<Vec<Sound>, Error>)
        requires
            old(conn).wf(),
        ensures
            final(conn).wf(),
            final(conn).now == later_of(old(conn).now, old(conn).deadline),
            final(conn).deadline == final(conn).now,
            !(r matches Err(Error::Connection(_))) ==> final(conn).channel.wire@ == old(
                conn,
            ).channel.wire@ + bytes_of("GetSoundList()"@),
            ({
                let reply = old(conn).channel.pending_reply();
                match r {
                    Ok(sounds) => spec_parse_soundlist(reply) == Some(
                        sounds@.map_values(|x: Sound| x@),
                    ),
                    Err(Error::BadResponse) => spec_parse_soundlist(reply) is None,
                    Err(Error::Connection(_)) => !old(conn).channel.clean(),
                    _ => false,
                }
            }),
            old(conn).channel.clean() ==> !(r matches Err(Error::Connection(_))) && final(conn).channel.clean(),
    {
        let lit = "GetSoundList()";
        proof {
            reveal_strlit("GetSoundList()");
            assert(lit.is_ascii());
        }
        let msg = ascii_bytes(lit);
        match Command::new(msg).awaited().issue(conn) {
            Ok(raw) => match SoundList::from_str(raw.as_slice()) {
                Ok(sl) => Ok(sl.sounds),
                Err(_) => Err(Error::BadResponse),
            },
            Err(e) => Err(Error::Connection(e)),
        }
    }

    /// Play a sound from the catalog by its index.
    ///
    /// The payload is `DoPlaySound(<index>)`; the scheduled cooldown is
    /// the debounce plus the sound's duration, so the next command
    /// cannot go out before the sound has finished playing. The decoded
    /// reply maps to the result as the match below states: success is
    /// success; no content means the sound was missing; a rejected or
    /// unknown command means the protocol itself broke; any other
    /// failure text is passed through.
    pub fn play_sound(&self, conn: &mut Connection, sound: &Sound) -> (r: Result<(), Error>)
        requires
            old(conn).wf(),
        ensures
            final(conn).wf(),
            final(conn).now == later_of(old(conn).now, old(conn).deadline),
            final(conn).deadline == capped_add(
                final(conn).now,
                spec_play_cooldown(self.debounce, sound.duration) as u128,
            ),
            !(r matches Err(Error::Connection(_))) ==> final(conn).channel.wire@ == old(
                conn,
            ).channel.wire@ + spec_play_payload(sound.index),
            ({
                let out = spec_decode(old(conn).channel.pending_reply());
                match r {
                    Ok(_) => out is Success,
                    Err(Error::Connection(_)) => !old(conn).channel.clean(),
                    Err(Error::NotFound { missing }) => out is NoContent && missing@
                        == spec_missing_text(sound@),
                    Err(Error::InvalidCommand(m)) => (out is BadRequest || out is CommandNotFound)
                        && m@ == spec_play_payload(sound.index),
                    Err(Error::Other(d)) => (out matches ResponseOutcome::NotFound(t) && d@ == t)
                        || (out matches ResponseOutcome::Unknown(t) && d@ == t),
                    _ => false,
                }
            }),
            old(conn).channel.clean() ==> !(r matches Err(Error::Connection(_))) && final(conn).channel.clean(),
    {
        let msg = play_payload(sound.index);
        let cooldown = play_cooldown(self.debounce, sound.duration);
        match Command::new(msg).with_cooldown(cooldown).awaited().issue(conn) {
            Ok(raw) => play_reply_outcome(sound, decode(raw.as_slice())),
            Err(e) => Err(Error::Connection(e)),
        }
    }
}

/// What a playback request comes to, given the decoded reply.
pub fn play_reply_outcome(sound: &Sound, code: ResponseCode) -> (r: Result<(), Error>)
    ensures
        ({
            let out = outcome_of(code);
            match r {
                Ok(_) => out is Success,
                Err(Error::NotFound { missing }) => out is NoContent && missing@
                    == spec_missing_text(sound@),
                Err(Error::InvalidCommand(m)) => (out is BadRequest || out is CommandNotFound)
                    && m@ == spec_play_payload(sound.index),
                Err(Error::Other(d)) => (out matches ResponseOutcome::NotFound(t) && d@ == t) || (
                out matches ResponseOutcome::Unknown(t) && d@ == t),
                _ => false,
            }
        }),
{
    match code {
        Ok(_) => Ok(()),
        Err(ErrorCode::NoContent) => Err(Error::NotFound { missing: missing_text(sound) }),
        Err(ErrorCode::BadRequest) => Err(Error::InvalidCommand(play_payload(sound.index))),
        Err(ErrorCode::CommandNotFound) => Err(Error::InvalidCommand(play_payload(sound.index))),
        Err(ErrorCode::NotFound(t)) => Err(Error::Other(t)),
        Err(ErrorCode::Unknown(t)) => Err(Error::Other(t)),
    }
}

} // verus!
