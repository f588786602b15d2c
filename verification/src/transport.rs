//! The transport side the simulation sees: a FIFO mailbox of opaque
//! binary frames, the encode/enqueue and dequeue/decode pair used by the
//! tick, and the decision rules of the two background workers. The
//! blocking halves (socket reads and writes, thread spawning) belong to
//! the embedding program, which runs each worker as a loop around its
//! decision function.

use vstd::prelude::*;
use crate::codec::{decode, encode, spec_decode, spec_encode};
use crate::message::{DecodeError, Message};

verus! {

/// One frame of the underlying duplex connection.
#[derive(Clone, PartialEq, Eq, Debug)]
pub enum Frame {
    /// Application payload: the only carrier of message envelopes.
    Binary(Vec<u8>),
    /// Text payload; the simulation does not use it.
    Text(Vec<u8>),
    /// Keepalive probe, answered with a pong.
    Ping(Vec<u8>),
    /// Answer to a keepalive probe.
    Pong(Vec<u8>),
    /// Teardown signal.
    Close,
}

/// A one-directional, ordered queue of binary frames connecting a
/// worker to its owner. Sends append at the tail; polls take from the
/// head, so frames come out in exactly the order they went in.
pub struct Mailbox {
    frames: Vec<Vec<u8>>,
}

impl Mailbox {
    /// The queued frames, oldest first.
    pub closed spec fn contents(self) -> Seq<Seq<u8>> {
        self.frames@.map_values(|f: Vec<u8>| f@)
    }

    /// An empty mailbox.
    pub fn new() -> (r: Mailbox)
        ensures
            r.contents() == Seq::<Seq<u8>>::empty(),
    {
        let r = Mailbox { frames: Vec::new() };
        proof {
            assert(r.contents() =~= Seq::<Seq<u8>>::empty());
        }
        r
    }

    /// Number of queued frames.
    pub fn len(&self) -> (r: usize)
        ensures
            r == self.contents().len(),
    {
        self.frames.len()
    }

    /// Enqueue one frame at the tail (fire and forget; never blocks).
    pub fn send(&mut self, f: Vec<u8>)
        ensures
            final(self).contents() == old(self).contents().push(f@),
    {
        let ghost fv = f@;
        self.frames.push(f);
        proof {
            assert(self.contents() =~= old(self).contents().push(fv));
        }
    }

    /// Non-blocking poll: the oldest frame, or `None` on an empty
    /// mailbox (indistinguishable from network idle).
    pub fn try_receive(&mut self) -> (r: Option<Vec<u8>>)
        ensures
            old(self).contents().len() == 0 ==> r is None
                && final(self).contents() == old(self).contents(),
            old(self).contents().len() > 0 ==> (r matches Some(f)
                && f@ == old(self).contents()[0]
                && final(self).contents() == old(self).contents().drop_first()),
    {
        if self.frames.len() == 0 {
            None
        } else {
            let f = self.frames.remove(0);
            proof {
                assert(self.contents() =~= old(self).contents().drop_first());
            }
            Some(f)
        }
    }
}

/// Encode a message and enqueue its frame on the outbound mailbox.
pub fn send_message(outbox: &mut Mailbox, m: &Message)
    ensures
        final(outbox).contents() == old(outbox).contents().push(spec_encode(m.model())),
{
    let frame = encode(m);
    outbox.send(frame);
}

/// Non-blocking receive: dequeue the oldest inbound frame, if any, and
/// decode it. A malformed frame is an error, not skipped.
pub fn recv_message(inbox: &mut Mailbox) -> (r: Result<Option<Message>, DecodeError>)
    ensures
        old(inbox).contents().len() == 0 ==> (r matches Ok(o) && o is None
            && final(inbox).contents() == old(inbox).contents()),
        old(inbox).contents().len() > 0 ==> final(inbox).contents()
            == old(inbox).contents().drop_first()
            && (match spec_decode(old(inbox).contents()[0]) {
            Some(mm) => r matches Ok(o) && o matches Some(m) && m.model() == mm,
            None => r is Err,
        }),
{
    match inbox.try_receive() {
        None => Ok(None),
        Some(f) => match decode(&f) {
            Ok(m) => Ok(Some(m)),
            Err(e) => Err(e),
        },
    }
}

/// What the reader worker observed on the connection: a frame, or an
/// unrecoverable read failure.
pub enum ReadEvent {
    Frame(Frame),
    Failure,
}

/// What the reader worker does in reaction to one event.
pub struct ReaderStep {
    /// A control frame to enqueue on the outbound mailbox.
    pub reply: Option<Frame>,
    /// An application payload to forward to the inbound mailbox.
    pub deliver: Option<Vec<u8>>,
    /// Whether the worker stops reading.
    pub stop: bool,
}

/// The reader worker's decision rule: a close is echoed back (so the
/// writer can shut the socket down) and ends the relay; a ping is
/// answered with a pong carrying the same payload; a binary frame is
/// forwarded inbound; other frames are dropped; a read failure echoes a
/// close and ends the worker.
pub fn reader_step(ev: ReadEvent) -> (r: ReaderStep)
    ensures
        ev matches ReadEvent::Frame(f) ==> match f {
            Frame::Close => r == (ReaderStep {
                reply: Some(Frame::Close),
                deliver: None,
                stop: true,
            }),
            Frame::Ping(d) => r == (ReaderStep {
                reply: Some(Frame::Pong(d)),
                deliver: None,
                stop: false,
            }),
            Frame::Binary(d) => r == (ReaderStep { reply: None, deliver: Some(d), stop: false }),
            Frame::Text(_) => r.reply is None && r.deliver is None && !r.stop,
            Frame::Pong(_) => r.reply is None && r.deliver is None && !r.stop,
        },
        ev is Failure ==> r == (ReaderStep { reply: Some(Frame::Close), deliver: None, stop: true }),
{
    match ev {
        ReadEvent::Frame(Frame::Close) => ReaderStep {
            reply: Some(Frame::Close),
            deliver: None,
            stop: true,
        },
        ReadEvent::Frame(Frame::Ping(d)) => ReaderStep {
            reply: Some(Frame::Pong(d)),
            deliver: None,
            stop: false,
        },
        ReadEvent::Frame(Frame::Binary(d)) => ReaderStep {
            reply: None,
            deliver: Some(d),
            stop: false,
        },
        ReadEvent::Frame(Frame::Text(_)) => ReaderStep { reply: None, deliver: None, stop: false },
        ReadEvent::Frame(Frame::Pong(_)) => ReaderStep { reply: None, deliver: None, stop: false },
        ReadEvent::Failure => ReaderStep { reply: Some(Frame::Close), deliver: None, stop: true },
    }
}

/// What the writer worker does with one frame taken from the outbound
/// mailbox.
pub struct WriterStep {
    /// The frame to write to the connection.
    pub write: Frame,
    /// Whether the worker terminates after writing (a close forwards
    /// the teardown and ends the worker).
    pub stop: bool,
}

/// The writer worker's decision rule: every frame is written to the
/// connection as it is; a close additionally ends the worker.
pub fn writer_step(f: Frame) -> (r: WriterStep)
    ensures
        r.write == f,
        r.stop == (f matches Frame::Close),
{
    let stop = match &f {
        Frame::Close => true,
        _ => false,
    };
    WriterStep { write: f, stop }
}

/// Frames queued behind `k` earlier ones come out in index order: after
/// `k` polls the head is exactly the frame that was sent `k` sends into
/// the queue's history, and one more poll drops it. Together with
/// [`Mailbox::send`] appending at the tail, delivery order equals send
/// order.
pub proof fn lemma_mailbox_order(s: Seq<Seq<u8>>, k: int)
    requires
        0 <= k < s.len(),
    ensures
        s.skip(k)[0] == s[k],
        s.skip(k).drop_first() == s.skip(k + 1),
{
    assert(s.skip(k).drop_first() =~= s.skip(k + 1));
}

/// Three frames sent in order land behind the earlier contents in that
/// same order, with nothing between them.
pub proof fn lemma_mailbox_fifo(q: Seq<Seq<u8>>, f1: Seq<u8>, f2: Seq<u8>, f3: Seq<u8>)
    ensures
        ({
            let q3 = q.push(f1).push(f2).push(f3);
            &&& q3.len() == q.len() + 3
            &&& q3[q.len() as int] == f1
            &&& q3[q.len() as int + 1] == f2
            &&& q3[q.len() as int + 2] == f3
            &&& forall|k: int| 0 <= k < q.len() ==> q3[k] == q[k]
        }),
{
}

} // verus!
