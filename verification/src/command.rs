//! The command value: an outbound payload, the cooldown the next command
//! must respect, and where the reply should go.

use vstd::prelude::*;

use crate::connection::{
    capped_add, delivery_for, later_of, Connection, DeliveryOutcome, Exchange, IoError,
};

verus! {

/// Where the reply of a command goes.
///
/// A caller that awaits the reply holds a reply slot; `listening` records
/// whether that caller is still there when the reply arrives (a caller
/// may abandon its wait). A detached command has no reply slot at all:
/// its outcome is only ever logged.
#[derive(Debug, Clone, Copy, PartialEq, Eq, Structural)]
pub enum ReplyMode {
    Awaited { listening: bool },
    Detached,
}

/// One queued command: the payload text sent to the host application,
/// the minimum delay the *next* command must leave after this one, and
/// the reply destination.
#[derive(Debug)]
pub struct Command {
    pub message: Vec<u8>,
    pub cooldown: u64,
    pub reply: ReplyMode,
}

impl Command {
    /// A fresh command with no cooldown and no reply destination.
    pub fn new(message: Vec<u8>) -> (c: Command)
        ensures
            c.message == message,
            c.cooldown == 0,
            c.reply == ReplyMode::Detached,
    {
        Command { message, cooldown: 0, reply: ReplyMode::Detached }
    }

    /// The same command with its cooldown replaced.
    pub fn with_cooldown(self, cooldown: u64) -> (c: Command)
        ensures
            c.message == self.message,
            c.cooldown == cooldown,
            c.reply == self.reply,
    {
        Command { cooldown, ..self }
    }

    /// The same command with an awaited reply slot whose caller is
    /// still listening.
    pub fn awaited(self) -> (c: Command)
        ensures
            c.message == self.message,
            c.cooldown == self.cooldown,
            c.reply == (ReplyMode::Awaited { listening: true }),
    {
        Command { reply: ReplyMode::Awaited { listening: true }, ..self }
    }

    /// Carry this command out on the connection: wait out the pending
    /// cooldown, send the payload, read the reply, and schedule this
    /// command's own cooldown for whoever sends next.
    pub fn issue(self, conn: &mut Connection) -> (r: Result<Vec<u8>, IoError>)
        requires
            old(conn).wf(),
        ensures
            final(conn).wf(),
            final(conn).now == later_of(old(conn).now, old(conn).deadline),
            final(conn).deadline == capped_add(final(conn).now, self.cooldown as u128),
            final(conn).channel.script == old(conn).channel.script,
            r matches Ok(v) ==> {
                &&& v@ == old(conn).channel.pending_reply()
                &&& final(conn).channel.wire@ == old(conn).channel.wire@ + self.message@
                &&& final(conn).channel.replies@ == if old(conn).channel.replies@.len() > 0 {
                    old(conn).channel.replies@.skip(1)
                } else {
                    old(conn).channel.replies@
                }
            },
            r is Err ==> !old(conn).channel.clean(),
            old(conn).channel.clean() ==> r is Ok && final(conn).channel.clean(),
    {
        conn.wait_cooldown();
        let r = conn.send_and_receive(self.message.as_slice());
        conn.schedule_cooldown(self.cooldown);
        r
    }

    /// Carry the command out and account for its reply: hand it to the
    /// awaiting caller if one is still listening, otherwise only log it.
    /// A channel failure ends up in the record like any reply; it never
    /// ends the actor.
    pub fn do_work(self, conn: &mut Connection) -> (e: Exchange)
        requires
            old(conn).wf(),
        ensures
            final(conn).wf(),
            e.sent_at == later_of(old(conn).now, old(conn).deadline),
            final(conn).now == e.sent_at,
            final(conn).deadline == capped_add(e.sent_at, self.cooldown as u128),
            final(conn).channel.script == old(conn).channel.script,
            e.delivery == delivery_for(self.reply),
            e.response matches Ok(v) ==> {
                &&& v@ == old(conn).channel.pending_reply()
                &&& final(conn).channel.wire@ == old(conn).channel.wire@ + self.message@
                &&& final(conn).channel.replies@ == if old(conn).channel.replies@.len() > 0 {
                    old(conn).channel.replies@.skip(1)
                } else {
                    old(conn).channel.replies@
                }
            },
            e.response is Err ==> !old(conn).channel.clean(),
            old(conn).channel.clean() ==> e.response is Ok && final(conn).channel.clean(),
    {
        let delivery = match self.reply {
            ReplyMode::Awaited { listening: true } => DeliveryOutcome::Delivered,
            ReplyMode::Awaited { listening: false } => DeliveryOutcome::ListenerGone,
            ReplyMode::Detached => DeliveryOutcome::Unawaited,
        };
        let sent_at_snapshot = if conn.deadline > conn.now {
            conn.deadline
        } else {
            conn.now
        };
        let response = self.issue(conn);
        Exchange { sent_at: sent_at_snapshot, response, delivery }
    }
}

} // verus!
