//! The two copy directions of a relay session, as state machines. A driver
//! performs the step that a machine asks for and hands back what came of it.
//!
//! The input direction copies standard input to the transport and, at the end
//! of input, signals the transport as its policy says. The output direction
//! copies the transport to standard output and, where the transport's end of
//! stream is ambiguous (a named pipe), probes until the peer is gone.
use vstd::prelude::*;
use crate::buffer::CopyBuffer;

verus! {

/// Pause between two disconnect probes, in milliseconds.
pub const PROBE_INTERVAL_MS: u64 = 50;

/// Size of the block read at once from a source.
pub const BLOCK_SIZE: usize = 65536;

/// The class of a failed I/O operation, as far as the relay tells them apart.
#[derive(Debug, Clone, Copy, PartialEq, Eq, Structural)]
pub enum IoClass {
    BrokenPipe,
    NotConnected,
    Other,
}

/// What came of the step last performed.
#[derive(Debug, PartialEq, Eq)]
pub enum Event {
    /// The source read returned these bytes; none means end of stream.
    Read(Vec<u8>),
    /// The sink accepted this many of the pending bytes.
    Wrote(usize),
    /// An empty message, a shutdown or a wait completed.
    Done,
    /// A zero-length probe read succeeded: the pipe is still open.
    ProbeOk,
    /// The operation failed.
    Error(IoClass),
}

/// What the driver is to do next.
#[derive(Debug, Clone, Copy, PartialEq, Eq, Structural)]
pub enum Step {
    /// Read a block of at most `BLOCK_SIZE` bytes from the source.
    ReadSource,
    /// Write the pending bytes (or a prefix of them) to the sink.
    WriteSink,
    /// Write one zero-length message on the transport.
    SendEmptyMessage,
    /// Shut down the transport's write half.
    ShutdownWrite,
    /// Read zero bytes from the transport to test whether the peer is there.
    Probe,
    /// Sleep for this many milliseconds.
    Wait(u64),
    /// The direction ended successfully.
    Finished,
    /// The direction ended with an error that is fatal for the session.
    Failed,
}

#[derive(Debug, Clone, Copy, PartialEq, Eq, Structural)]
pub enum UpPhase {
    Reading,
    Writing,
    SendingEmpty,
    ShuttingDown,
    Finished,
    Failed,
}

#[derive(Debug, Clone, Copy, PartialEq, Eq, Structural)]
pub enum DownPhase {
    Reading,
    Writing,
    Probing,
    Waiting,
    Finished,
    Failed,
}

/// Outcome of a write that accepted `n` of `pending` bytes: `None` for a
/// failure (nothing accepted, or more than was offered), else whether bytes
/// are still pending.
pub open spec fn after_write(n: usize, pending: nat) -> Option<bool> {
    if n == 0 || n > pending {
        None
    } else {
        Some(n < pending)
    }
}

/// Phase of the input direction once standard input has ended.
pub open spec fn up_eof_phase(close_on_stdin_eof: bool, close_write: bool) -> UpPhase {
    if close_on_stdin_eof {
        UpPhase::Finished
    } else if close_write {
        UpPhase::SendingEmpty
    } else {
        UpPhase::ShuttingDown
    }
}

pub open spec fn up_next(
    close_on_stdin_eof: bool,
    close_write: bool,
    phase: UpPhase,
    ev: Event,
    pending: nat,
) -> UpPhase {
    match (phase, ev) {
        (UpPhase::Finished, _) => UpPhase::Finished,
        (UpPhase::Failed, _) => UpPhase::Failed,
        (_, Event::Error(_)) => UpPhase::Failed,
        (UpPhase::Reading, Event::Read(d)) => if d@.len() > 0 {
            UpPhase::Writing
        } else {
            up_eof_phase(close_on_stdin_eof, close_write)
        },
        (UpPhase::Writing, Event::Wrote(n)) => match after_write(n, pending) {
            None => UpPhase::Failed,
            Some(true) => UpPhase::Writing,
            Some(false) => UpPhase::Reading,
        },
        (UpPhase::SendingEmpty, Event::Done) => UpPhase::ShuttingDown,
        (UpPhase::ShuttingDown, Event::Done) => UpPhase::Finished,
        _ => phase,
    }
}

pub open spec fn up_step(phase: UpPhase) -> Step {
    match phase {
        UpPhase::Reading => Step::ReadSource,
        UpPhase::Writing => Step::WriteSink,
        UpPhase::SendingEmpty => Step::SendEmptyMessage,
        UpPhase::ShuttingDown => Step::ShutdownWrite,
        UpPhase::Finished => Step::Finished,
        UpPhase::Failed => Step::Failed,
    }
}

pub open spec fn is_disconnect(c: IoClass) -> bool {
    c == IoClass::BrokenPipe || c == IoClass::NotConnected
}

pub open spec fn down_next(close_on_eof: bool, phase: DownPhase, ev: Event, pending: nat) -> DownPhase {
    match (phase, ev) {
        (DownPhase::Finished, _) => DownPhase::Finished,
        (DownPhase::Failed, _) => DownPhase::Failed,
        (DownPhase::Reading, Event::Read(d)) => if d@.len() > 0 {
            DownPhase::Writing
        } else if close_on_eof {
            DownPhase::Finished
        } else {
            DownPhase::Probing
        },
        (DownPhase::Reading, Event::Error(c)) => if is_disconnect(c) {
            DownPhase::Finished
        } else {
            DownPhase::Failed
        },
        (DownPhase::Probing, Event::Error(c)) => if c == IoClass::BrokenPipe {
            DownPhase::Finished
        } else {
            DownPhase::Failed
        },
        (_, Event::Error(_)) => DownPhase::Failed,
        (DownPhase::Writing, Event::Wrote(n)) => match after_write(n, pending) {
            None => DownPhase::Failed,
            Some(true) => DownPhase::Writing,
            Some(false) => DownPhase::Reading,
        },
        (DownPhase::Probing, Event::ProbeOk) => DownPhase::Waiting,
        (DownPhase::Waiting, Event::Done) => DownPhase::Probing,
        _ => phase,
    }
}

pub open spec fn down_step(phase: DownPhase) -> Step {
    match phase {
        DownPhase::Reading => Step::ReadSource,
        DownPhase::Writing => Step::WriteSink,
        DownPhase::Probing => Step::Probe,
        DownPhase::Waiting => Step::Wait(PROBE_INTERVAL_MS),
        DownPhase::Finished => Step::Finished,
        DownPhase::Failed => Step::Failed,
    }
}

/// Effect of an event on a direction's buffer: a block read is taken in, a
/// write moves the accepted bytes out; nothing else touches it.
pub open spec fn buffer_after(b: CopyBuffer, b2: CopyBuffer, reading: bool, writing: bool, ev: Event) -> bool {
    match ev {
        Event::Read(d) if reading => b2.taken@ == b.taken@ + d@ && b2.delivered@ == b.delivered@
            && b2.pending() == b.pending() + d@,
        Event::Wrote(n) if writing && after_write(n, b.pending().len()) is Some => b2.taken@
            == b.taken@ && b2.delivered@ == b.delivered@ + b.pending().take(n as int)
            && b2.pending() == b.pending().skip(n as int),
        _ => b2.taken@ == b.taken@ && b2.delivered@ == b.delivered@ && b2.pending() == b.pending(),
    }
}

/// Copies standard input to the transport.
pub struct Uplink {
    /// At end of input, end without signalling the transport.
    pub close_on_stdin_eof: bool,
    /// At end of input, send an empty message before the half-close.
    pub close_write: bool,
    pub phase: UpPhase,
    pub buffer: CopyBuffer,
}

impl Uplink {
    /// Bytes wait in the buffer while they are being written, and may be left
    /// there by a failure.
    pub open spec fn wf(&self) -> bool {
        &&& self.buffer.wf()
        &&& (self.phase == UpPhase::Writing ==> self.buffer.pending().len() > 0)
        &&& (self.phase != UpPhase::Writing && self.phase != UpPhase::Failed ==> self.buffer.pending().len()
            == 0)
    }

    pub fn new(close_on_stdin_eof: bool, close_write: bool) -> (r: Uplink)
        ensures
            r.wf(),
            r.close_on_stdin_eof == close_on_stdin_eof,
            r.close_write == close_write,
            r.phase == UpPhase::Reading,
            r.buffer.taken@.len() == 0,
    {
        Uplink { close_on_stdin_eof, close_write, phase: UpPhase::Reading, buffer: CopyBuffer::new() }
    }

    pub fn step(&self) -> (r: Step)
        ensures
            r == up_step(self.phase),
    {
        match self.phase {
            UpPhase::Reading => Step::ReadSource,
            UpPhase::Writing => Step::WriteSink,
            UpPhase::SendingEmpty => Step::SendEmptyMessage,
            UpPhase::ShuttingDown => Step::ShutdownWrite,
            UpPhase::Finished => Step::Finished,
            UpPhase::Failed => Step::Failed,
        }
    }

    /// The bytes to hand to the transport at a `WriteSink` step.
    pub fn pending_bytes(&self) -> (r: Vec<u8>)
        requires
            self.wf(),
        ensures
            r@ == self.buffer.pending(),
    {
        self.buffer.pending_bytes()
    }

    pub fn on_event(&mut self, ev: Event)
        requires
            old(self).wf(),
        ensures
            final(self).wf(),
            final(self).close_on_stdin_eof == old(self).close_on_stdin_eof,
            final(self).close_write == old(self).close_write,
            final(self).phase == up_next(
                old(self).close_on_stdin_eof,
                old(self).close_write,
                old(self).phase,
                ev,
                old(self).buffer.pending().len(),
            ),
            buffer_after(
                old(self).buffer,
                final(self).buffer,
                old(self).phase == UpPhase::Reading,
                old(self).phase == UpPhase::Writing,
                ev,
            ),
    {
        match self.phase {
            UpPhase::Finished | UpPhase::Failed => {},
            UpPhase::Reading => match ev {
                Event::Read(d) => {
                    if d.len() > 0 {
                        self.buffer.fill(d);
                        self.phase = UpPhase::Writing;
                    } else {
                        assert(self.buffer.pending() + d@ =~= self.buffer.pending());
                        self.phase = if self.close_on_stdin_eof {
                            UpPhase::Finished
                        } else if self.close_write {
                            UpPhase::SendingEmpty
                        } else {
                            UpPhase::ShuttingDown
                        };
                    }
                },
                Event::Error(_) => {
                    self.phase = UpPhase::Failed;
                },
                _ => {},
            },
            UpPhase::Writing => match ev {
                Event::Wrote(n) => {
                    let pending = self.buffer.pending_len();
                    if n == 0 || n > pending {
                        self.phase = UpPhase::Failed;
                    } else {
                        self.buffer.consume(n);
                        if n == pending {
                            self.phase = UpPhase::Reading;
                        }
                    }
                },
                Event::Error(_) => {
                    self.phase = UpPhase::Failed;
                },
                _ => {},
            },
            UpPhase::SendingEmpty => match ev {
                Event::Done => {
                    self.phase = UpPhase::ShuttingDown;
                },
                Event::Error(_) => {
                    self.phase = UpPhase::Failed;
                },
                _ => {},
            },
            UpPhase::ShuttingDown => match ev {
                Event::Done => {
                    self.phase = UpPhase::Finished;
                },
                Event::Error(_) => {
                    self.phase = UpPhase::Failed;
                },
                _ => {},
            },
        }
    }
}

/// Copies the transport to standard output.
pub struct Downlink {
    /// Take an end-of-stream read as the end: no disconnect probing.
    pub close_on_eof: bool,
    pub phase: DownPhase,
    pub buffer: CopyBuffer,
}

impl Downlink {
    /// Bytes wait in the buffer while they are being written, and may be left
    /// there by a failure.
    pub open spec fn wf(&self) -> bool {
        &&& self.buffer.wf()
        &&& (self.phase == DownPhase::Writing ==> self.buffer.pending().len() > 0)
        &&& (self.phase != DownPhase::Writing && self.phase != DownPhase::Failed ==> self.buffer.pending().len()
            == 0)
    }

    pub fn new(close_on_eof: bool) -> (r: Downlink)
        ensures
            r.wf(),
            r.close_on_eof == close_on_eof,
            r.phase == DownPhase::Reading,
            r.buffer.taken@.len() == 0,
    {
        Downlink { close_on_eof, phase: DownPhase::Reading, buffer: CopyBuffer::new() }
    }

    pub fn step(&self) -> (r: Step)
        ensures
            r == down_step(self.phase),
    {
        match self.phase {
            DownPhase::Reading => Step::ReadSource,
            DownPhase::Writing => Step::WriteSink,
            DownPhase::Probing => Step::Probe,
            DownPhase::Waiting => Step::Wait(PROBE_INTERVAL_MS),
            DownPhase::Finished => Step::Finished,
            DownPhase::Failed => Step::Failed,
        }
    }

    /// The bytes to hand to standard output at a `WriteSink` step.
    pub fn pending_bytes(&self) -> (r: Vec<u8>)
        requires
            self.wf(),
        ensures
            r@ == self.buffer.pending(),
    {
        self.buffer.pending_bytes()
    }

    pub fn on_event(&mut self, ev: Event)
        requires
            old(self).wf(),
        ensures
            final(self).wf(),
            final(self).close_on_eof == old(self).close_on_eof,
            final(self).phase == down_next(
                old(self).close_on_eof,
                old(self).phase,
                ev,
                old(self).buffer.pending().len(),
            ),
            buffer_after(
                old(self).buffer,
                final(self).buffer,
                old(self).phase == DownPhase::Reading,
                old(self).phase == DownPhase::Writing,
                ev,
            ),
    {
        match self.phase {
            DownPhase::Finished | DownPhase::Failed => {},
            DownPhase::Reading => match ev {
                Event::Read(d) => {
                    if d.len() > 0 {
                        self.buffer.fill(d);
                        self.phase = DownPhase::Writing;
                    } else {
                        assert(self.buffer.pending() + d@ =~= self.buffer.pending());
                        self.phase = if self.close_on_eof {
                            DownPhase::Finished
                        } else {
                            DownPhase::Probing
                        };
                    }
                },
                Event::Error(c) => {
                    self.phase = match c {
                        IoClass::BrokenPipe | IoClass::NotConnected => DownPhase::Finished,
                        IoClass::Other => DownPhase::Failed,
                    };
                },
                _ => {},
            },
            DownPhase::Writing => match ev {
                Event::Wrote(n) => {
                    let pending = self.buffer.pending_len();
                    if n == 0 || n > pending {
                        self.phase = DownPhase::Failed;
                    } else {
                        self.buffer.consume(n);
                        if n == pending {
                            self.phase = DownPhase::Reading;
                        }
                    }
                },
                Event::Error(_) => {
                    self.phase = DownPhase::Failed;
                },
                _ => {},
            },
            DownPhase::Probing => match ev {
                Event::ProbeOk => {
                    self.phase = DownPhase::Waiting;
                },
                Event::Error(c) => {
                    self.phase = match c {
                        IoClass::BrokenPipe => DownPhase::Finished,
                        _ => DownPhase::Failed,
                    };
                },
                _ => {},
            },
            DownPhase::Waiting => match ev {
                Event::Done => {
                    self.phase = DownPhase::Probing;
                },
                Event::Error(_) => {
                    self.phase = DownPhase::Failed;
                },
                _ => {},
            },
        }
    }
}

/// How the two directions together end the session.
#[derive(Debug, Clone, Copy, PartialEq, Eq, Structural)]
pub enum SessionStatus {
    Running,
    Finished,
    Failed,
}

/// A failure in either direction ends the session with an error. Otherwise
/// the session ends cleanly as soon as either direction has ended; the other
/// one is abandoned.
pub open spec fn session_of(up: UpPhase, down: DownPhase) -> SessionStatus {
    if up == UpPhase::Failed || down == DownPhase::Failed {
        SessionStatus::Failed
    } else if up == UpPhase::Finished || down == DownPhase::Finished {
        SessionStatus::Finished
    } else {
        SessionStatus::Running
    }
}

pub fn session_status(up: UpPhase, down: DownPhase) -> (r: SessionStatus)
    ensures
        r == session_of(up, down),
{
    match (up, down) {
        (UpPhase::Failed, _) | (_, DownPhase::Failed) => SessionStatus::Failed,
        (UpPhase::Finished, _) | (_, DownPhase::Finished) => SessionStatus::Finished,
        _ => SessionStatus::Running,
    }
}

/// Input direction fidelity: whenever it is not in the middle of a write, the
/// transport has accepted exactly the bytes read from standard input, in order,
/// each once; in the middle of a write, what it accepted is a prefix of them.
pub proof fn lemma_uplink_fidelity(u: Uplink)
    requires
        u.wf(),
    ensures
        u.buffer.delivered@ + u.buffer.pending() == u.buffer.taken@,
        u.phase != UpPhase::Writing && u.phase != UpPhase::Failed ==> u.buffer.delivered@
            == u.buffer.taken@,
{
    assert(u.buffer.pending().len() == 0 ==> u.buffer.delivered@ + u.buffer.pending()
        =~= u.buffer.delivered@);
}

/// Output direction fidelity: whenever it is not in the middle of a write,
/// standard output has accepted exactly the bytes read from the transport, in
/// order, each once; in the middle of a write, a prefix of them.
pub proof fn lemma_downlink_fidelity(d: Downlink)
    requires
        d.wf(),
    ensures
        d.buffer.delivered@ + d.buffer.pending() == d.buffer.taken@,
        d.phase != DownPhase::Writing && d.phase != DownPhase::Failed ==> d.buffer.delivered@
            == d.buffer.taken@,
{
    assert(d.buffer.pending().len() == 0 ==> d.buffer.delivered@ + d.buffer.pending()
        =~= d.buffer.delivered@);
}

/// Chunk boundaries do not matter: two partial writes of `n1` and then `n2`
/// bytes deliver the same bytes as one write of `n1 + n2`.
pub proof fn lemma_partial_writes(p: Seq<u8>, n1: int, n2: int)
    requires
        0 <= n1,
        0 <= n2,
        n1 + n2 <= p.len(),
    ensures
        p.take(n1) + p.skip(n1).take(n2) == p.take(n1 + n2),
        p.skip(n1).skip(n2) == p.skip(n1 + n2),
{
    assert(p.take(n1) + p.skip(n1).take(n2) =~= p.take(n1 + n2));
    assert(p.skip(n1).skip(n2) =~= p.skip(n1 + n2));
}

/// At the end of standard input, every byte read before it has reached the
/// transport, and the transport then sees, by policy: nothing with
/// `close_on_stdin_eof`; else an empty message and then a half-close with
/// `close_write`; else a half-close alone. Then the direction, and with it the
/// session, ends cleanly unless the output direction has failed.
pub proof fn lemma_eof_policy(u: Uplink, eof: Vec<u8>, down: DownPhase)
    requires
        u.wf(),
        u.phase == UpPhase::Reading,
        eof@.len() == 0,
        down != DownPhase::Failed,
    ensures
        u.buffer.delivered@ == u.buffer.taken@,
        ({
            let (c, w) = (u.close_on_stdin_eof, u.close_write);
            let p1 = up_next(c, w, u.phase, Event::Read(eof), u.buffer.pending().len());
            let p2 = up_next(c, w, p1, Event::Done, 0);
            let p3 = up_next(c, w, p2, Event::Done, 0);
            &&& c ==> up_step(p1) == Step::Finished && session_of(p1, down)
                == SessionStatus::Finished
            &&& !c && w ==> up_step(p1) == Step::SendEmptyMessage && up_step(p2)
                == Step::ShutdownWrite && up_step(p3) == Step::Finished && session_of(p3, down)
                == SessionStatus::Finished
            &&& !c && !w ==> up_step(p1) == Step::ShutdownWrite && up_step(p2) == Step::Finished
                && session_of(p2, down) == SessionStatus::Finished
        }),
{
    lemma_uplink_fidelity(u);
}

/// On a named pipe, an empty read, once every byte read before it has reached
/// standard output, is followed at once by a probe, with no wait. A probe that
/// succeeds leads to one wait of `PROBE_INTERVAL_MS` and a new probe, and does
/// not end the direction; one that fails with a broken pipe ends the direction
/// and the session cleanly, unless the input direction has failed.
pub proof fn lemma_disconnect_detected(d: Downlink, eof: Vec<u8>, up: UpPhase)
    requires
        d.wf(),
        d.phase == DownPhase::Reading,
        !d.close_on_eof,
        eof@.len() == 0,
        up != UpPhase::Failed,
    ensures
        d.buffer.delivered@ == d.buffer.taken@,
        ({
            let n = d.buffer.pending().len();
            let p1 = down_next(false, d.phase, Event::Read(eof), n);
            let waiting = down_next(false, p1, Event::ProbeOk, 0);
            let gone = down_next(false, p1, Event::Error(IoClass::BrokenPipe), 0);
            &&& down_step(p1) == Step::Probe
            &&& down_step(waiting) == Step::Wait(PROBE_INTERVAL_MS)
            &&& session_of(up, waiting) != SessionStatus::Failed
            &&& down_next(false, waiting, Event::Done, 0) == p1
            &&& gone == DownPhase::Finished
            &&& session_of(up, gone) == SessionStatus::Finished
        }),
{
    lemma_downlink_fidelity(d);
}

/// On a TCP connection the transport's end of stream is final: once every
/// byte read before it has reached standard output, an empty read ends the
/// direction and the session cleanly, unless the input direction has failed.
pub proof fn lemma_tcp_end_of_stream(d: Downlink, eof: Vec<u8>, up: UpPhase)
    requires
        d.wf(),
        d.phase == DownPhase::Reading,
        d.close_on_eof,
        eof@.len() == 0,
        up != UpPhase::Failed,
    ensures
        d.buffer.delivered@ == d.buffer.taken@,
        down_next(true, d.phase, Event::Read(eof), d.buffer.pending().len()) == DownPhase::Finished,
        session_of(up, DownPhase::Finished) == SessionStatus::Finished,
{
    lemma_downlink_fidelity(d);
}

} // verus!
