//! One admitted connection: what each inbound frame does to the room, what
//! the forward loop does with each broadcast, and the session's phases.
use crate::registry::{RoomRegistry, Ticket, after_leave};
use tokio::sync::broadcast::Sender;
use vstd::prelude::*;

verus! {

/// A frame read from the client's socket.
pub enum Frame {
    Text(String),
    Binary(Vec<u8>),
    Ping(Vec<u8>),
    Pong(Vec<u8>),
    Close,
    /// The transport failed while reading.
    Error,
}

/// What the receive loop does after a frame.
pub enum Step {
    /// Publish this text to the room and keep reading.
    Publish(String),
    /// Keep reading.
    Continue,
    /// Stop reading: the connection is over.
    Stop,
}

/// The lower-case hexadecimal digit of `d`, for `d` below 16.
pub open spec fn hex_digit(d: int) -> char {
    seq!['0', '1', '2', '3', '4', '5', '6', '7', '8', '9', 'a', 'b', 'c', 'd', 'e', 'f'][d]
}

/// Two lower-case hexadecimal digits per byte, high digit first.
pub open spec fn hex_of(b: Seq<u8>) -> Seq<char>
    decreases b.len(),
{
    if b.len() == 0 {
        Seq::empty()
    } else {
        hex_of(b.drop_last()) + seq![hex_digit(b.last() as int / 16), hex_digit(b.last() as int % 16)]
    }
}

pub open spec fn envelope_head() -> Seq<char> {
    "{\"type\":\"binary\",\"data\":\""@
}

pub open spec fn envelope_tail() -> Seq<char> {
    "\"}"@
}

/// The text that stands in the room for a binary frame holding `b`.
pub open spec fn envelope_of(b: Seq<u8>) -> Seq<char> {
    envelope_head() + hex_of(b) + envelope_tail()
}

/// The step owed for frame `f`: text is published verbatim, binary as its
/// envelope, ping and pong change nothing, close and errors end the loop.
pub open spec fn step_for(f: Frame, s: Step) -> bool {
    match f {
        Frame::Text(t) => s matches Step::Publish(m) && m@ == t@,
        Frame::Binary(d) => s matches Step::Publish(m) && m@ == envelope_of(d@),
        Frame::Ping(_) | Frame::Pong(_) => s is Continue,
        Frame::Close | Frame::Error => s is Stop,
    }
}

/// Encodes `data` as lower-case hexadecimal.
pub fn hex_encode(data: &[u8]) -> (r: String)
    ensures
        r@ == hex_of(data@),
{
    let digits = "0123456789abcdef";
    proof {
        reveal_strlit("0123456789abcdef");
        assert forall|d: int| 0 <= d < 16 implies #[trigger] digits@[d] == hex_digit(d) by {}
    }
    let mut out = String::new();
    let mut i: usize = 0;
    while i < data.len()
        invariant
            i <= data@.len(),
            out@ == hex_of(data@.subrange(0, i as int)),
            digits@.len() == 16,
            forall|d: int| 0 <= d < 16 ==> #[trigger] digits@[d] == hex_digit(d),
        decreases data@.len() - i,
    {
        let b = data[i];
        let hi = (b / 16) as usize;
        let lo = (b % 16) as usize;
        out.append(digits.substring_char(hi, hi + 1));
        out.append(digits.substring_char(lo, lo + 1));
        proof {
            let s = data@.subrange(0, i as int + 1);
            assert(s.drop_last() =~= data@.subrange(0, i as int));
            assert(digits@.subrange(hi as int, hi + 1) =~= seq![hex_digit(b as int / 16)]);
            assert(digits@.subrange(lo as int, lo + 1) =~= seq![hex_digit(b as int % 16)]);
            assert(out@ =~= hex_of(s));
        }
        i = i + 1;
    }
    proof {
        assert(data@.subrange(0, data@.len() as int) =~= data@);
    }
    out
}

/// The text envelope `{"type":"binary","data":"<hex>"}` for binary `data`.
pub fn binary_envelope(data: &[u8]) -> (r: String)
    ensures
        r@ == envelope_of(data@),
{
    let mut out = String::new();
    out.append("{\"type\":\"binary\",\"data\":\"");
    let hex = hex_encode(data);
    out.append(hex.as_str());
    out.append("\"}");
    out
}

/// Decides what the receive loop does with frame `f`.
pub fn on_frame(f: Frame) -> (r: Step)
    ensures
        step_for(f, r),
{
    match f {
        Frame::Text(t) => Step::Publish(t),
        Frame::Binary(d) => Step::Publish(binary_envelope(d.as_slice())),
        Frame::Ping(_) => Step::Continue,
        Frame::Pong(_) => Step::Continue,
        Frame::Close => Step::Stop,
        Frame::Error => Step::Stop,
    }
}

/// Relies on `tokio::sync::broadcast::Sender::send`. Its only error, a room
/// without receivers, is the idle steady state and not a failure.
#[verifier::external_body]
fn publish(channel: &Sender<String>, msg: String) {
    let _ = channel.send(msg);
}

/// What a broadcast receiver handed the forward loop.
pub enum Delivery {
    Message(String),
    /// The subscriber fell behind and this many messages were overwritten.
    Lagged(u64),
    /// Every sender is gone.
    Closed,
}

/// What the forward loop does next.
pub enum Forward {
    /// Write this text to the socket.
    Send(String),
    /// Nothing to write; wait for the next delivery.
    Skip,
    /// End the loop.
    Stop,
}

/// The forward loop's policy: messages are written out, a gap left by lag
/// is skipped and delivery resumes with the oldest message still held, and
/// a closed channel ends the loop.
pub fn on_delivery(d: Delivery) -> (r: Forward)
    ensures
        match d {
            Delivery::Message(m) => r matches Forward::Send(s) && s@ == m@,
            Delivery::Lagged(_) => r is Skip,
            Delivery::Closed => r is Stop,
        },
{
    match d {
        Delivery::Message(m) => Forward::Send(m),
        Delivery::Lagged(_) => Forward::Skip,
        Delivery::Closed => Forward::Stop,
    }
}

/// Phases of a session; there is no way back to an earlier one.
#[derive(PartialEq, Eq, Structural, Clone, Copy, Debug)]
pub enum Phase {
    Admitted,
    Active,
    Closing,
    Closed,
}

/// Frames after which the receive loop stops.
pub open spec fn ends_session(f: Frame) -> bool {
    f is Close || f is Error
}

/// One admitted connection and its place in a room.
pub struct Session {
    pub phase: Phase,
    pub ticket: Ticket,
}

impl Session {
    /// A session admitted with `ticket`, before its socket is upgraded.
    pub fn new(ticket: Ticket) -> (r: Self)
        ensures
            r.phase == Phase::Admitted,
            r.ticket == ticket,
    {
        Session { phase: Phase::Admitted, ticket }
    }

    /// The upgrade completed: both loops start.
    pub fn start(&mut self)
        ensures
            final(self).ticket == old(self).ticket,
            final(self).phase == if old(self).phase == Phase::Admitted {
                Phase::Active
            } else {
                old(self).phase
            },
    {
        if self.phase == Phase::Admitted {
            self.phase = Phase::Active;
        }
    }

    /// Handles one inbound frame of an active session, publishing to
    /// `channel` what `on_frame` says; returns whether to keep reading. A
    /// frame that ends the loop moves the session to closing.
    pub fn receive(&mut self, f: Frame, channel: &Sender<String>) -> (keep_reading: bool)
        ensures
            final(self).ticket == old(self).ticket,
            old(self).phase == Phase::Active ==> {
                &&& keep_reading == !ends_session(f)
                &&& final(self).phase == if ends_session(f) {
                    Phase::Closing
                } else {
                    Phase::Active
                }
            },
            old(self).phase != Phase::Active ==> !keep_reading && final(self).phase == old(
                self,
            ).phase,
    {
        if self.phase != Phase::Active {
            return false;
        }
        match on_frame(f) {
            Step::Publish(m) => {
                publish(channel, m);
                true
            },
            Step::Continue => true,
            Step::Stop => {
                self.phase = Phase::Closing;
                false
            },
        }
    }

    /// The forward loop could not write to the socket: an active session
    /// moves to closing.
    pub fn forward_failed(&mut self)
        ensures
            final(self).ticket == old(self).ticket,
            final(self).phase == if old(self).phase == Phase::Active {
                Phase::Closing
            } else {
                old(self).phase
            },
    {
        if self.phase == Phase::Active {
            self.phase = Phase::Closing;
        }
    }

    /// Both loops have stopped: a closing session gives its subscription
    /// back to `registry` and is closed; returns whether its room was removed.
    pub fn finish(&mut self, registry: &mut RoomRegistry) -> (removed: bool)
        requires
            old(registry).wf(),
        ensures
            final(registry).wf(),
            final(self).ticket == old(self).ticket,
            old(self).phase == Phase::Closing ==> {
                &&& final(self).phase == Phase::Closed
                &&& final(registry)@ == after_leave(old(registry)@, old(self).ticket)
                &&& removed == (old(registry)@.contains_key(old(self).ticket.room@)
                    && !final(registry)@.contains_key(old(self).ticket.room@))
            },
            old(self).phase != Phase::Closing ==> {
                &&& final(self).phase == old(self).phase
                &&& *final(registry) == *old(registry)
                &&& !removed
            },
    {
        if self.phase != Phase::Closing {
            return false;
        }
        self.phase = Phase::Closed;
        registry.leave(&self.ticket)
    }
}

/// A binary frame reaches the room as text that begins `{"type":"binary"`;
/// the receive loop has no way to publish raw bytes.
pub proof fn law_binary_enveloped(f: Frame, s: Step)
    requires
        f is Binary,
        step_for(f, s),
    ensures
        s matches Step::Publish(m) && m@.len() >= 16 && m@.subrange(0, 16)
            == "{\"type\":\"binary\""@,
{
    reveal_strlit("{\"type\":\"binary\",\"data\":\"");
    reveal_strlit("{\"type\":\"binary\"");
    let m = s->Publish_0;
    let d = f->Binary_0;
    assert(m@ == envelope_of(d@));
    assert(m@.subrange(0, 16) =~= "{\"type\":\"binary\""@);
}

} // verus!
