//! The connection owned by the command actor: a duplex byte channel with
//! no framing, the non-blocking send and receive loops over it, and the
//! actor loop that drains a queue of commands.
//!
//! The channel here is a model of the real inter-process pipe: readiness
//! and failure are driven by a finite script, the peer's replies are
//! given up front, and what the peer observed is recorded on the wire.
//! The loops and the actor are ordinary executable code verified against
//! that model; an asynchronous shell repeats the same steps over a real
//! pipe.

use vstd::prelude::*;

use crate::ascii::sub_vec;
use crate::command::{Command, ReplyMode};

verus! {

/// The size of the fixed read buffer. A read that comes back with fewer
/// bytes than this is taken as the end of a message.
pub const BUF_LEN: usize = 4096;

/// What kind of failure the underlying channel reported.
#[derive(Debug, Clone, Copy, PartialEq, Eq)]
pub enum IoErrorKind {
    /// The endpoint does not exist.
    NotFound,
    /// The endpoint refused the connection.
    ConnectionRefused,
    /// Any other failure.
    Other,
}

/// A channel-level failure: its kind, and the raw operating-system error
/// code when one was reported.
#[derive(Debug, Clone, Copy, PartialEq, Eq)]
pub struct IoError {
    pub kind: IoErrorKind,
    pub raw_os_error: Option<i32>,
}

/// One scripted readiness outcome of the simulated channel.
#[derive(Debug, Clone, Copy, PartialEq, Eq)]
pub enum IoEvent {
    /// The channel is ready; a write will move up to the given number of
    /// bytes (at least one), a read sees all bytes the peer has provided.
    Ready(usize),
    /// The readiness was spurious: the attempt would block.
    Block,
    /// The attempt fails with this error.
    Fail(IoError),
}

/// What one write attempt did.
pub enum WriteStep {
    Wrote(usize),
    Blocked,
    Failed(IoError),
}

/// What one read attempt returned.
pub enum ReadStep {
    Data(Vec<u8>),
    Blocked,
    Failed(IoError),
}

/// A simulated duplex byte channel.
///
/// `wire` records every byte the peer has observed, in order. `replies`
/// holds the peer's scripted replies, front first; after each completed
/// send the next one becomes readable as `inbox`. `script` injects
/// would-block readiness and failures into individual I/O attempts; once
/// it is exhausted every attempt succeeds in full.
pub struct Channel {
    pub wire: Vec<u8>,
    pub replies: Vec<Vec<u8>>,
    pub inbox: Vec<u8>,
    pub read_pos: usize,
    pub script: Vec<IoEvent>,
    pub script_pos: usize,
}

impl Channel {
    /// The positions into the byte store and the script are in bounds.
    pub open spec fn wf(self) -> bool {
        self.read_pos <= self.inbox@.len() && self.script_pos <= self.script@.len()
    }

    /// No failure is left in the script: every attempt will eventually
    /// succeed.
    pub open spec fn clean(self) -> bool {
        forall|i: int|
            self.script_pos <= i < self.script@.len() ==> !(#[trigger] self.script@[i] is Fail)
    }

    /// The reply the peer will give to the next completed send.
    pub open spec fn pending_reply(self) -> Seq<u8> {
        if self.replies@.len() > 0 {
            self.replies@[0]@
        } else {
            Seq::<u8>::empty()
        }
    }

    /// A channel with the given peer replies and readiness script, and
    /// nothing sent or received yet.
    pub fn of_script(replies: Vec<Vec<u8>>, script: Vec<IoEvent>) -> (c: Channel)
        ensures
            c.wf(),
            c.wire@ == Seq::<u8>::empty(),
            c.replies == replies,
            c.inbox@ == Seq::<u8>::empty(),
            c.read_pos == 0,
            c.script == script,
            c.script_pos == 0,
    {
        Channel {
            wire: Vec::new(),
            replies,
            inbox: Vec::new(),
            read_pos: 0,
            script,
            script_pos: 0,
        }
    }

    /// Take the next scripted readiness outcome; an exhausted script
    /// means the channel is fully ready.
    fn next_event(&mut self) -> (e: IoEvent)
        requires
            old(self).wf(),
        ensures
            final(self).wf(),
            final(self).wire == old(self).wire,
            final(self).replies == old(self).replies,
            final(self).inbox == old(self).inbox,
            final(self).read_pos == old(self).read_pos,
            final(self).script == old(self).script,
            if old(self).script_pos < old(self).script@.len() {
                e == old(self).script@[old(self).script_pos as int] && final(self).script_pos
                    == old(self).script_pos + 1
            } else {
                e == IoEvent::Ready(usize::MAX) && final(self).script_pos == old(self).script_pos
            },
            old(self).clean() ==> final(self).clean() && !(e is Fail),
    {
        if self.script_pos < self.script.len() {
            let e = self.script[self.script_pos];
            self.script_pos = self.script_pos + 1;
            e
        } else {
            IoEvent::Ready(usize::MAX)
        }
    }

    /// One non-blocking write attempt of the bytes of `buf` from
    /// position `from` on.
    pub fn try_write(&mut self, buf: &[u8], from: usize) -> (r: WriteStep)
        requires
            old(self).wf(),
            from < buf@.len(),
        ensures
            final(self).wf(),
            final(self).replies == old(self).replies,
            final(self).inbox == old(self).inbox,
            final(self).read_pos == old(self).read_pos,
            final(self).script == old(self).script,
            old(self).script_pos <= final(self).script_pos <= old(self).script_pos + 1,
            match r {
                WriteStep::Wrote(n) => 1 <= n <= buf@.len() - from && final(self).wire@ == old(self).wire@ + buf@.subrange(from as int, from + n) && (old(self).script_pos == old(self).script@.len() ==> n == buf@.len() - from),
                WriteStep::Blocked => final(self).wire == old(self).wire && final(self).script_pos
                    == old(self).script_pos + 1,
                WriteStep::Failed(_) => final(self).wire == old(self).wire && final(self).script_pos == old(self).script_pos + 1,
            },
            old(self).clean() ==> final(self).clean() && !(r is Failed),
    {
        let remaining = buf.len() - from;
        let e = self.next_event();
        match e {
            IoEvent::Ready(k) => {
                let k1: usize = if k == 0 {
                    1
                } else {
                    k
                };
                let n: usize = if k1 < remaining {
                    k1
                } else {
                    remaining
                };
                let mut chunk = sub_vec(buf, from, from + n);
                self.wire.append(&mut chunk);
                WriteStep::Wrote(n)
            },
            IoEvent::Block => WriteStep::Blocked,
            IoEvent::Fail(err) => WriteStep::Failed(err),
        }
    }

    /// One non-blocking read attempt with a buffer of `cap` bytes.
    pub fn try_read(&mut self, cap: usize) -> (r: ReadStep)
        requires
            old(self).wf(),
            cap >= 1,
        ensures
            final(self).wf(),
            final(self).wire == old(self).wire,
            final(self).replies == old(self).replies,
            final(self).inbox == old(self).inbox,
            final(self).script == old(self).script,
            old(self).script_pos <= final(self).script_pos <= old(self).script_pos + 1,
            match r {
                ReadStep::Data(v) => {
                    let avail = old(self).inbox@.len() - old(self).read_pos;
                    &&& v@.len() == if cap <= avail {
                        cap as int
                    } else {
                        avail
                    }
                    &&& v@ == old(self).inbox@.subrange(
                        old(self).read_pos as int,
                        old(self).read_pos + v@.len(),
                    )
                    &&& final(self).read_pos == old(self).read_pos + v@.len()
                },
                ReadStep::Blocked => final(self).read_pos == old(self).read_pos && final(self).script_pos == old(self).script_pos + 1,
                ReadStep::Failed(_) => final(self).read_pos == old(self).read_pos && final(self).script_pos == old(self).script_pos + 1,
            },
            old(self).clean() ==> final(self).clean() && !(r is Failed),
    {
        let e = self.next_event();
        match e {
            IoEvent::Ready(_) => {
                let avail = self.inbox.len() - self.read_pos;
                let n: usize = if cap < avail {
                    cap
                } else {
                    avail
                };
                let chunk = sub_vec(self.inbox.as_slice(), self.read_pos, self.read_pos + n);
                self.read_pos = self.read_pos + n;
                ReadStep::Data(chunk)
            },
            IoEvent::Block => ReadStep::Blocked,
            IoEvent::Fail(err) => ReadStep::Failed(err),
        }
    }

    /// Make the peer's next reply readable, replacing whatever was left
    /// of the previous one.
    pub fn load_next_reply(&mut self)
        requires
            old(self).wf(),
        ensures
            final(self).wf(),
            final(self).wire == old(self).wire,
            final(self).script == old(self).script,
            final(self).script_pos == old(self).script_pos,
            final(self).read_pos == 0,
            final(self).inbox@ == old(self).pending_reply(),
            final(self).replies@ == if old(self).replies@.len() > 0 {
                old(self).replies@.skip(1)
            } else {
                old(self).replies@
            },
            old(self).clean() ==> final(self).clean(),
    {
        if self.replies.len() > 0 {
            let r = self.replies.remove(0);
            self.inbox = r;
            proof {
                assert(self.replies@ =~= old(self).replies@.skip(1));
            }
        } else {
            self.inbox = Vec::new();
        }
        self.read_pos = 0;
    }
}

/// The smaller of `a + b` and the largest clock value.
pub open spec fn capped_add(a: u128, b: u128) -> u128 {
    if a + b <= u128::MAX {
        (a + b) as u128
    } else {
        u128::MAX
    }
}

/// The later of two instants.
pub open spec fn later_of(a: u128, b: u128) -> u128 {
    if a >= b {
        a
    } else {
        b
    }
}

/// The connection the command actor owns: the channel, the simulated
/// clock (milliseconds), and the instant before which nothing further
/// may be sent.
pub struct Connection {
    pub channel: Channel,
    pub now: u128,
    pub deadline: u128,
}

impl Connection {
    pub open spec fn wf(self) -> bool {
        self.channel.wf()
    }

    /// A fresh connection over `channel`, with the clock at zero and no
    /// cooldown pending.
    pub fn over(channel: Channel) -> (c: Connection)
        requires
            channel.wf(),
        ensures
            c.wf(),
            c.channel == channel,
            c.now == 0,
            c.deadline == 0,
    {
        Connection { channel, now: 0, deadline: 0 }
    }

    /// Wait until the pending cooldown, if any, has elapsed.
    pub fn wait_cooldown(&mut self)
        ensures
            final(self).channel == old(self).channel,
            final(self).deadline == old(self).deadline,
            final(self).now == later_of(old(self).now, old(self).deadline),
    {
        if self.deadline > self.now {
            self.now = self.deadline;
        }
    }

    /// Record that nothing further may be sent until `cooldown`
    /// milliseconds from now.
    pub fn schedule_cooldown(&mut self, cooldown: u64)
        ensures
            final(self).channel == old(self).channel,
            final(self).now == old(self).now,
            final(self).deadline == capped_add(old(self).now, cooldown as u128),
    {
        if self.now <= u128::MAX - (cooldown as u128) {
            self.deadline = self.now + (cooldown as u128);
        } else {
            self.deadline = u128::MAX;
        }
    }

    /// Send every byte of `command`: wait for readiness, attempt a
    /// write, retry after a would-block, abort on any failure, stop when
    /// all bytes are out.
    pub fn send(&mut self, command: &[u8]) -> (r: Result<(), IoError>)
        requires
            old(self).wf(),
        ensures
            final(self).wf(),
            final(self).now == old(self).now,
            final(self).deadline == old(self).deadline,
            final(self).channel.replies == old(self).channel.replies,
            final(self).channel.inbox == old(self).channel.inbox,
            final(self).channel.read_pos == old(self).channel.read_pos,
            final(self).channel.script == old(self).channel.script,
            final(self).channel.script_pos >= old(self).channel.script_pos,
            r is Ok ==> final(self).channel.wire@ == old(self).channel.wire@ + command@,
            r is Err ==> {
                let k = final(self).channel.wire@.len() - old(self).channel.wire@.len();
                &&& 0 <= k <= command@.len()
                &&& final(self).channel.wire@ == old(self).channel.wire@ + command@.take(k)
                &&& !old(self).channel.clean()
            },
            old(self).channel.clean() ==> r is Ok && final(self).channel.clean(),
    {
        let mut written: usize = 0;
        while written < command.len()
            invariant
                written <= command@.len(),
                self.wf(),
                self.now == old(self).now,
                self.deadline == old(self).deadline,
                self.channel.replies == old(self).channel.replies,
                self.channel.inbox == old(self).channel.inbox,
                self.channel.read_pos == old(self).channel.read_pos,
                self.channel.script == old(self).channel.script,
                self.channel.script_pos >= old(self).channel.script_pos,
                self.channel.wire@ == old(self).channel.wire@ + command@.take(written as int),
                old(self).channel.clean() ==> self.channel.clean(),
            decreases (self.channel.script@.len() - self.channel.script_pos) + (command@.len()
                - written),
        {
            match self.channel.try_write(command, written) {
                WriteStep::Wrote(n) => {
                    proof {
                        assert(command@.take(written + n as int) =~= command@.take(written as int)
                            + command@.subrange(written as int, written + n as int));
                        assert(old(self).channel.wire@ + command@.take(written + n as int) =~= (old(self).channel.wire@ + command@.take(written as int)) + command@.subrange(
                            written as int,
                            written + n as int,
                        ));
                    }
                    written = written + n;
                },
                WriteStep::Blocked => {},
                WriteStep::Failed(e) => {
                    proof {
                        assert(self.channel.wire@.len() - old(self).channel.wire@.len() == written);
                    }
                    return Err(e);
                },
            }
        }
        proof {
            assert(command@.take(written as int) =~= command@);
        }
        Ok(())
    }

    /// Read one full message: wait for readiness, attempt a bounded
    /// read, append what came, retry after a would-block, and treat a
    /// read that fills less than the whole buffer as the end of the
    /// message.
    pub fn receive(&mut self) -> (r: Result<Vec<u8>, IoError>)
        requires
            old(self).wf(),
        ensures
            final(self).wf(),
            final(self).now == old(self).now,
            final(self).deadline == old(self).deadline,
            final(self).channel.wire == old(self).channel.wire,
            final(self).channel.replies == old(self).channel.replies,
            final(self).channel.inbox == old(self).channel.inbox,
            final(self).channel.script == old(self).channel.script,
            final(self).channel.script_pos >= old(self).channel.script_pos,
            r matches Ok(v) ==> v@ == old(self).channel.inbox@.skip(
                old(self).channel.read_pos as int,
            ) && final(self).channel.read_pos == old(self).channel.inbox@.len(),
            r is Err ==> !old(self).channel.clean(),
            old(self).channel.clean() ==> r is Ok && final(self).channel.clean(),
    {
        let mut response: Vec<u8> = Vec::new();
        loop
            invariant
                self.wf(),
                self.now == old(self).now,
                self.deadline == old(self).deadline,
                self.channel.wire == old(self).channel.wire,
                self.channel.replies == old(self).channel.replies,
                self.channel.inbox == old(self).channel.inbox,
                self.channel.script == old(self).channel.script,
                self.channel.script_pos >= old(self).channel.script_pos,
                self.channel.read_pos >= old(self).channel.read_pos,
                response@ == old(self).channel.inbox@.subrange(
                    old(self).channel.read_pos as int,
                    self.channel.read_pos as int,
                ),
                old(self).channel.clean() ==> self.channel.clean(),
            decreases (self.channel.script@.len() - self.channel.script_pos) + (
            self.channel.inbox@.len() - self.channel.read_pos),
        {
            match self.channel.try_read(BUF_LEN) {
                ReadStep::Data(mut chunk) => {
                    let n = chunk.len();
                    response.append(&mut chunk);
                    proof {
                        assert(response@ =~= old(self).channel.inbox@.subrange(
                            old(self).channel.read_pos as int,
                            self.channel.read_pos as int,
                        ));
                    }
                    if n < BUF_LEN {
                        proof {
                            assert(self.channel.read_pos == self.channel.inbox@.len());
                            assert(response@ =~= old(self).channel.inbox@.skip(
                                old(self).channel.read_pos as int,
                            ));
                        }
                        return Ok(response);
                    }
                },
                ReadStep::Blocked => {},
                ReadStep::Failed(e) => {
                    return Err(e);
                },
            }
        }
    }

    /// Send `message`, then read the peer's reply to it.
    ///
    /// On a channel with no injected failure this returns exactly the
    /// bytes the peer scripted as its next reply, whatever would-block
    /// readiness the script injects.
    pub fn send_and_receive(&mut self, message: &[u8]) -> (r: Result<Vec<u8>, IoError>)
        requires
            old(self).wf(),
        ensures
            final(self).wf(),
            final(self).now == old(self).now,
            final(self).deadline == old(self).deadline,
            final(self).channel.script == old(self).channel.script,
            r matches Ok(v) ==> {
                &&& v@ == old(self).channel.pending_reply()
                &&& final(self).channel.wire@ == old(self).channel.wire@ + message@
                &&& final(self).channel.replies@ == if old(self).channel.replies@.len() > 0 {
                    old(self).channel.replies@.skip(1)
                } else {
                    old(self).channel.replies@
                }
            },
            r is Err ==> !old(self).channel.clean(),
            old(self).channel.clean() ==> r is Ok && final(self).channel.clean(),
    {
        match self.send(message) {
            Ok(()) => {},
            Err(e) => {
                return Err(e);
            },
        }
        self.channel.load_next_reply();
        self.receive()
    }
}

/// The delivery class of one completed command.
#[derive(Debug, Clone, Copy, PartialEq, Eq, Structural)]
pub enum DeliveryOutcome {
    /// The reply was handed to the awaiting caller.
    Delivered,
    /// A reply slot existed but its caller had stopped listening; the
    /// loss is logged and swallowed.
    ListenerGone,
    /// The command had no reply slot; its outcome is only logged.
    Unawaited,
}

/// The delivery class a reply mode leads to.
pub open spec fn delivery_for(m: ReplyMode) -> DeliveryOutcome {
    match m {
        ReplyMode::Awaited { listening: true } => DeliveryOutcome::Delivered,
        ReplyMode::Awaited { listening: false } => DeliveryOutcome::ListenerGone,
        ReplyMode::Detached => DeliveryOutcome::Unawaited,
    }
}

/// The record of one command the actor completed.
#[derive(Debug)]
pub struct Exchange {
    /// The instant the command's bytes started onto the channel.
    pub sent_at: u128,
    /// The raw reply, or the channel failure, that the exchange ended in.
    pub response: Result<Vec<u8>, IoError>,
    /// What happened to that response.
    pub delivery: DeliveryOutcome,
}

/// The payloads of a command sequence, in order, as one byte stream.
pub open spec fn concat_messages(cmds: Seq<Command>) -> Seq<u8>
    decreases cmds.len(),
{
    if cmds.len() == 0 {
        Seq::<u8>::empty()
    } else {
        concat_messages(cmds.drop_last()) + cmds.last().message@
    }
}

/// The reply the peer scripted for the command at position `i`, the
/// empty message when it scripted none.
pub open spec fn reply_at(replies: Seq<Vec<u8>>, i: int) -> Seq<u8> {
    if 0 <= i < replies.len() {
        replies[i]@
    } else {
        Seq::<u8>::empty()
    }
}

/// Drain a queue of commands, one at a time, in order.
///
/// Every queued command is processed, whatever its reply mode and
/// however earlier exchanges ended: a channel failure is delivered like
/// a reply and an abandoned reply slot is logged and swallowed, so one
/// bad exchange never starves the commands behind it. Between two
/// commands the first one's cooldown is respected.
pub fn run_actor(queue: Vec<Command>, conn: &mut Connection) -> (log: Vec<Exchange>)
    requires
        old(conn).wf(),
    ensures
        final(conn).wf(),
        log@.len() == queue@.len(),
        forall|i: int|
            0 <= i < log@.len() ==> #[trigger] log@[i].delivery == delivery_for(queue@[i].reply),
        log@.len() > 0 ==> log@[0].sent_at == later_of(old(conn).now, old(conn).deadline),
        forall|i: int|
            0 <= i < log@.len() - 1 ==> #[trigger] log@[i + 1].sent_at >= capped_add(
                log@[i].sent_at,
                queue@[i].cooldown as u128,
            ),
        old(conn).channel.clean() ==> {
            &&& final(conn).channel.wire@ == old(conn).channel.wire@ + concat_messages(queue@)
            &&& forall|i: int|
                0 <= i < log@.len() ==> (#[trigger] log@[i].response) is Ok
                    && log@[i].response->Ok_0@ == reply_at(old(conn).channel.replies@, i)
        },
{
    let mut queue = queue;
    let ghost q0 = queue@;
    let ghost r0 = old(conn).channel.replies@;
    let mut log: Vec<Exchange> = Vec::new();
    while queue.len() > 0
        invariant
            conn.wf(),
            log@.len() + queue@.len() == q0.len(),
            queue@ == q0.skip(log@.len() as int),
            forall|j: int|
                0 <= j < log@.len() ==> #[trigger] log@[j].delivery == delivery_for(q0[j].reply),
            log@.len() > 0 ==> log@[0].sent_at == later_of(old(conn).now, old(conn).deadline),
            log@.len() == 0 ==> conn.now == old(conn).now && conn.deadline == old(conn).deadline,
            forall|j: int|
                0 <= j < log@.len() - 1 ==> #[trigger] log@[j + 1].sent_at >= capped_add(
                    log@[j].sent_at,
                    q0[j].cooldown as u128,
                ),
            log@.len() > 0 ==> conn.deadline == capped_add(
                log@[log@.len() - 1].sent_at,
                q0[log@.len() - 1].cooldown as u128,
            ) && conn.now == log@[log@.len() - 1].sent_at,
            old(conn).channel.clean() ==> {
                &&& conn.channel.clean()
                &&& conn.channel.wire@ == old(conn).channel.wire@ + concat_messages(q0.take(
                    log@.len() as int,
                ))
                &&& conn.channel.replies@ == if log@.len() <= r0.len() {
                    r0.skip(log@.len() as int)
                } else {
                    Seq::<Vec<u8>>::empty()
                }
                &&& forall|j: int|
                    0 <= j < log@.len() ==> (#[trigger] log@[j].response) is Ok
                        && log@[j].response->Ok_0@ == reply_at(r0, j)
            },
        decreases queue@.len(),
    {
        let ghost i = log@.len() as int;
        let cmd = queue.remove(0);
        proof {
            assert(cmd == q0[i]);
            assert(queue@ =~= q0.skip(i + 1));
        }
        let ghost pre = *conn;
        let e = cmd.do_work(conn);
        log.push(e);
        proof {
            if old(conn).channel.clean() {
                assert(q0.take(i + 1).drop_last() =~= q0.take(i));
                assert(q0.take(i + 1).last() == q0[i]);
                assert(conn.channel.wire@ =~= old(conn).channel.wire@ + concat_messages(q0.take(
                    i + 1,
                )));
                if i < r0.len() {
                    assert(pre.channel.pending_reply() == reply_at(r0, i));
                } else {
                    assert(pre.channel.replies@.len() == 0);
                    assert(pre.channel.pending_reply() == reply_at(r0, i));
                }
            }
        }
    }
    proof {
        assert(q0.take(log@.len() as int) =~= q0);
    }
    log
}

} // verus!
