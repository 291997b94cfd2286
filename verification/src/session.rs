use vstd::prelude::*;

verus! {

/// The abstract state of one port session: the open flag shared with the
/// background loop, the outbound buffers still queued for the device, and
/// the history of what has crossed each boundary so far — buffers accepted
/// by `write`, buffers handed to the device handle, and inbound chunks
/// handed to the delivery callback.
#[verifier::ext_equal]
pub struct SessionView {
    pub is_open: bool,
    pub pending: Seq<Seq<u8>>,
    pub accepted: Seq<Seq<u8>>,
    pub written: Seq<Seq<u8>>,
    pub delivered: Seq<Seq<u8>>,
}

/// A session is well formed when every buffer ever accepted by `write` is
/// either already written to the device or still pending, in call order.
pub open spec fn session_wf(s: SessionView) -> bool {
    s.accepted == s.written + s.pending
}

/// The state of a session that `open` has just created: flag up, nothing
/// queued, no history.
pub open spec fn initial_state() -> SessionView {
    SessionView {
        is_open: true,
        pending: Seq::empty(),
        accepted: Seq::empty(),
        written: Seq::empty(),
        delivered: Seq::empty(),
    }
}

/// What `write` does to the session state: while the flag is up the buffer
/// is queued and recorded as accepted; on a closed session nothing changes.
pub open spec fn write_transition(s: SessionView, buf: Seq<u8>) -> SessionView {
    if s.is_open {
        SessionView {
            is_open: s.is_open,
            pending: s.pending.push(buf),
            accepted: s.accepted.push(buf),
            written: s.written,
            delivered: s.delivered,
        }
    } else {
        s
    }
}

/// What `close` does to the session state: the flag goes down, everything
/// else — including buffers still queued — is left as it is.
pub open spec fn close_transition(s: SessionView) -> SessionView {
    SessionView {
        is_open: false,
        pending: s.pending,
        accepted: s.accepted,
        written: s.written,
        delivered: s.delivered,
    }
}

/// One outcome of the background loop's timed read on the device handle.
pub enum ReadEvent {
    /// The read returned bytes. A zero-length read means "no data now",
    /// never end of stream.
    Data(Vec<u8>),
    /// The read timed out before any byte arrived.
    TimedOut,
    /// The read failed with a non-timeout error; the device is unusable.
    Failed,
}

/// The mathematical value of a `ReadEvent`.
pub enum ReadEventView {
    Data(Seq<u8>),
    TimedOut,
    Failed,
}

impl View for ReadEvent {
    type V = ReadEventView;

    open spec fn view(&self) -> ReadEventView {
        match self {
            ReadEvent::Data(chunk) => ReadEventView::Data(chunk@),
            ReadEvent::TimedOut => ReadEventView::TimedOut,
            ReadEvent::Failed => ReadEventView::Failed,
        }
    }
}

/// The chunk one loop iteration delivers to the callback for a given read
/// outcome: exactly the bytes of a non-empty read, nothing otherwise.
pub open spec fn delivery_of(ev: ReadEventView) -> Option<Seq<u8>> {
    match ev {
        ReadEventView::Data(chunk) => if chunk.len() > 0 {
            Some(chunk)
        } else {
            None
        },
        _ => None,
    }
}

/// What one iteration of the background loop does to the abstract state:
/// record the delivery a non-empty read produced, drain at most the oldest
/// queued buffer to the device. A failed read downs the flag itself and
/// drains nothing.
pub open spec fn step_transition(s: SessionView, ev: ReadEventView) -> SessionView {
    if ev is Failed {
        SessionView {
            is_open: false,
            pending: s.pending,
            accepted: s.accepted,
            written: s.written,
            delivered: s.delivered,
        }
    } else {
        let delivered = match delivery_of(ev) {
            Some(chunk) => s.delivered.push(chunk),
            None => s.delivered,
        };
        if s.pending.len() > 0 {
            SessionView {
                is_open: s.is_open,
                pending: s.pending.subrange(1, s.pending.len() as int),
                accepted: s.accepted,
                written: s.written.push(s.pending[0]),
                delivered,
            }
        } else {
            SessionView {
                is_open: s.is_open,
                pending: s.pending,
                accepted: s.accepted,
                written: s.written,
                delivered,
            }
        }
    }
}

/// What one iteration of the background loop must go on to do: the chunk to
/// hand to the delivery callback, the buffer to write to the device in one
/// whole operation, and whether to exit and drop the device handle.
pub open spec fn step_outcome(s: SessionView, ev: ReadEventView) -> StepOutcomeView {
    if ev is Failed {
        StepOutcomeView { deliver: None, device_write: None, exit: true }
    } else {
        StepOutcomeView {
            deliver: delivery_of(ev),
            device_write: if s.pending.len() > 0 {
                Some(s.pending[0])
            } else {
                None
            },
            exit: !s.is_open,
        }
    }
}

/// The result of a `write` call: whether the buffer was queued for the
/// device or dropped because the session is closed.
#[derive(Clone, Copy, Debug, PartialEq, Eq, Structural)]
pub enum WriteStatus {
    Enqueued,
    Closed,
}

/// The actions one loop iteration must perform, as computed by `step`.
pub struct StepOutcome {
    /// The chunk to hand to the delivery callback: exactly the bytes read.
    pub deliver: Option<Vec<u8>>,
    /// The buffer to write to the device handle, in full, as one operation.
    pub device_write: Option<Vec<u8>>,
    /// Whether the loop must exit and drop the device handle.
    pub exit: bool,
}

/// The mathematical value of a `StepOutcome`.
#[verifier::ext_equal]
pub struct StepOutcomeView {
    pub deliver: Option<Seq<u8>>,
    pub device_write: Option<Seq<u8>>,
    pub exit: bool,
}

impl View for StepOutcome {
    type V = StepOutcomeView;

    open spec fn view(&self) -> StepOutcomeView {
        StepOutcomeView {
            deliver: match self.deliver {
                Some(chunk) => Some(chunk@),
                None => None,
            },
            device_write: match self.device_write {
                Some(buf) => Some(buf@),
                None => None,
            },
            exit: self.exit,
        }
    }
}

/// One opened serial device: the open flag, the outbound queue feeding the
/// background loop, and the line settings the device was opened with. The
/// device handle itself is owned by the loop outside the library; the loop
/// obtains everything it does to the handle from `step`.
pub struct Serial {
    is_open: bool,
    outbound: Vec<Vec<u8>>,
    baud: u32,
    read_timeout_ms: u64,
    accepted: Ghost<Seq<Seq<u8>>>,
    written: Ghost<Seq<Seq<u8>>>,
    delivered: Ghost<Seq<Seq<u8>>>,
}

impl View for Serial {
    type V = SessionView;

    closed spec fn view(&self) -> SessionView {
        SessionView {
            is_open: self.is_open,
            pending: self.outbound.deep_view(),
            accepted: self.accepted@,
            written: self.written@,
            delivered: self.delivered@,
        }
    }
}

impl Serial {
    /// The baud rate this session was opened with.
    pub closed spec fn spec_baud(&self) -> u32 {
        self.baud
    }

    /// The read timeout this session was opened with; zero means the loop's
    /// read blocks until data arrives.
    pub closed spec fn spec_read_timeout_ms(&self) -> u64 {
        self.read_timeout_ms
    }

    /// Creates the session state for a device that has just been opened
    /// with the given line settings. The caller opens the device handle,
    /// spawns exactly one background loop for it, and feeds every read
    /// outcome to `step`.
    pub fn open(baud: u32, read_timeout_ms: u64) -> (s: Serial)
        requires
            baud > 0,
        ensures
            s@ == initial_state(),
            s.spec_baud() == baud,
            s.spec_read_timeout_ms() == read_timeout_ms,
    {
        let s = Serial {
            is_open: true,
            outbound: Vec::new(),
            baud,
            read_timeout_ms,
            accepted: Ghost(Seq::empty()),
            written: Ghost(Seq::empty()),
            delivered: Ghost(Seq::empty()),
        };
        proof {
            assert(s@ =~~= initial_state());
        }
        s
    }

    /// Queues a buffer for the device. While the session is open the buffer
    /// is accepted and will be drained to the device whole, in call order;
    /// on a closed session the buffer is dropped and never reaches the
    /// device, and the call says so.
    pub fn write(&mut self, buf: Vec<u8>) -> (r: WriteStatus)
        ensures
            final(self)@ == write_transition(old(self)@, buf@),
            r == (if old(self)@.is_open {
                WriteStatus::Enqueued
            } else {
                WriteStatus::Closed
            }),
            final(self).spec_baud() == old(self).spec_baud(),
            final(self).spec_read_timeout_ms() == old(self).spec_read_timeout_ms(),
    {
        if !self.is_open {
            return WriteStatus::Closed;
        }
        let ghost b = buf@;
        self.accepted = Ghost(self.accepted@.push(b));
        self.outbound.push(buf);
        proof {
            assert(self.outbound.deep_view() =~~= old(self).outbound.deep_view().push(b));
            assert(self@ =~~= write_transition(old(self)@, b));
        }
        WriteStatus::Enqueued
    }

    /// Downs the open flag. Advisory: the loop observes the flag at the end
    /// of its current iteration, so at most one already-queued buffer may
    /// still be drained to the device before the loop exits.
    pub fn close(&mut self)
        ensures
            final(self)@ == close_transition(old(self)@),
            final(self).spec_baud() == old(self).spec_baud(),
            final(self).spec_read_timeout_ms() == old(self).spec_read_timeout_ms(),
    {
        self.is_open = false;
        proof {
            assert(self@ =~~= close_transition(old(self)@));
        }
    }

    /// One iteration of the background loop, given the outcome of the timed
    /// read on the device. The returned actions are all the loop performs:
    /// deliver the chunk of a non-empty read to the callback, write at most
    /// the oldest queued buffer to the device in one whole operation, and
    /// exit once the flag is down or the read failed.
    pub fn step(&mut self, event: ReadEvent) -> (out: StepOutcome)
        ensures
            final(self)@ == step_transition(old(self)@, event@),
            out@ == step_outcome(old(self)@, event@),
            final(self).spec_baud() == old(self).spec_baud(),
            final(self).spec_read_timeout_ms() == old(self).spec_read_timeout_ms(),
    {
        let ghost ev = event@;
        let deliver: Option<Vec<u8>> = match event {
            ReadEvent::Failed => {
                self.is_open = false;
                proof {
                    assert(self@ =~~= step_transition(old(self)@, ev));
                    let out_view = StepOutcomeView { deliver: None, device_write: None, exit: true };
                    assert(out_view =~~= step_outcome(old(self)@, ev));
                }
                return StepOutcome { deliver: None, device_write: None, exit: true };
            },
            ReadEvent::Data(chunk) => {
                if chunk.len() > 0 {
                    self.delivered = Ghost(self.delivered@.push(chunk@));
                    Some(chunk)
                } else {
                    None
                }
            },
            ReadEvent::TimedOut => None,
        };
        let device_write: Option<Vec<u8>> = if self.outbound.len() > 0 {
            let buf = self.outbound.remove(0);
            proof {
                assert(self.outbound.deep_view() =~~= old(self).outbound.deep_view().subrange(
                    1,
                    old(self).outbound.deep_view().len() as int,
                ));
            }
            self.written = Ghost(self.written@.push(buf@));
            Some(buf)
        } else {
            None
        };
        let exit = !self.is_open;
        let out = StepOutcome { deliver, device_write, exit };
        proof {
            assert(self@ =~~= step_transition(old(self)@, ev));
            assert(out@ =~~= step_outcome(old(self)@, ev));
        }
        out
    }
}

/// A fresh session is well formed.
pub proof fn lemma_initial_wf()
    ensures
        session_wf(initial_state()),
{
    assert(initial_state().accepted =~= initial_state().written + initial_state().pending);
}

/// `write` preserves well-formedness: the accepted buffer goes to the back
/// of the queue.
pub proof fn lemma_write_preserves_wf(s: SessionView, buf: Seq<u8>)
    requires
        session_wf(s),
    ensures
        session_wf(write_transition(s, buf)),
{
    let s2 = write_transition(s, buf);
    assert(s2.accepted =~= s2.written + s2.pending);
}

/// `close` preserves well-formedness: it only downs the flag.
pub proof fn lemma_close_preserves_wf(s: SessionView)
    requires
        session_wf(s),
    ensures
        session_wf(close_transition(s)),
{
}

/// Each loop iteration preserves well-formedness: a drained buffer moves
/// from the front of the queue to the back of the device-write history.
pub proof fn lemma_step_preserves_wf(s: SessionView, ev: ReadEventView)
    requires
        session_wf(s),
    ensures
        session_wf(step_transition(s, ev)),
{
    let s2 = step_transition(s, ev);
    assert(s2.accepted =~= s2.written + s2.pending);
}

/// Buffers cross to the device whole and in `write` call order: in every
/// well formed session the device-write history is exactly the front part
/// of the accepted history — nothing reordered, nothing altered, nothing
/// skipped in the middle.
pub proof fn lemma_written_prefix_of_accepted(s: SessionView)
    requires
        session_wf(s),
    ensures
        s.written.len() <= s.accepted.len(),
        s.written == s.accepted.take(s.written.len() as int),
{
    assert(s.written =~= s.accepted.take(s.written.len() as int));
}

/// Exactly one delivery per non-empty read, with exactly the bytes read;
/// no delivery on an empty read, a timeout, or a failure.
pub proof fn lemma_delivery_exact(s: SessionView, ev: ReadEventView)
    ensures
        step_outcome(s, ev).deliver == delivery_of(ev),
        ev matches ReadEventView::Data(chunk) ==> delivery_of(ev) == (if chunk.len() > 0 {
            Some(chunk)
        } else {
            None
        }),
        delivery_of(ev) matches Some(chunk) ==> step_transition(s, ev).delivered
            == s.delivered.push(chunk),
        delivery_of(ev) is None ==> step_transition(s, ev).delivered == s.delivered,
{
}

/// A buffer written after `close` never reaches the device: on a closed
/// session `write` changes nothing, so the buffer is never queued and the
/// loop can never drain it.
pub proof fn lemma_write_after_close_noop(s: SessionView, buf: Seq<u8>)
    ensures
        write_transition(close_transition(s), buf) == close_transition(s),
{
}

/// Closing twice has no effect beyond closing once.
pub proof fn lemma_close_idempotent(s: SessionView)
    ensures
        close_transition(close_transition(s)) == close_transition(s),
{
}

/// One call or loop iteration, as a transition on the abstract state.
pub enum SessionOp {
    Write(Seq<u8>),
    Close,
    Step(ReadEventView),
}

/// The state transition one operation performs.
pub open spec fn apply_op(s: SessionView, op: SessionOp) -> SessionView {
    match op {
        SessionOp::Write(buf) => write_transition(s, buf),
        SessionOp::Close => close_transition(s),
        SessionOp::Step(ev) => step_transition(s, ev),
    }
}

/// The state after a whole sequence of calls and loop iterations, oldest
/// first.
pub open spec fn run_ops(s: SessionView, ops: Seq<SessionOp>) -> SessionView
    decreases ops.len(),
{
    if ops.len() == 0 {
        s
    } else {
        run_ops(apply_op(s, ops[0]), ops.subrange(1, ops.len() as int))
    }
}

/// Well-formedness survives every interleaving of `write` and `close`
/// calls and loop iterations, so the device-write order law of
/// `lemma_written_prefix_of_accepted` holds at every point of a session's
/// life, whatever its callers and its loop do.
pub proof fn lemma_run_preserves_wf(s: SessionView, ops: Seq<SessionOp>)
    requires
        session_wf(s),
    ensures
        session_wf(run_ops(s, ops)),
    decreases ops.len(),
{
    if ops.len() > 0 {
        match ops[0] {
            SessionOp::Write(buf) => lemma_write_preserves_wf(s, buf),
            SessionOp::Close => lemma_close_preserves_wf(s),
            SessionOp::Step(ev) => lemma_step_preserves_wf(s, ev),
        }
        lemma_run_preserves_wf(apply_op(s, ops[0]), ops.subrange(1, ops.len() as int));
    }
}

/// No operation raises a downed flag, and a closed session accepts nothing
/// more: whatever mixture of writes, closes and loop iterations follows a
/// `close`, the accepted history is frozen — so a buffer passed to `write`
/// after `close` is never accepted, and by the prefix law never written to
/// the device.
pub proof fn lemma_closed_stays_closed(s: SessionView, ops: Seq<SessionOp>)
    requires
        !s.is_open,
    ensures
        !run_ops(s, ops).is_open,
        run_ops(s, ops).accepted == s.accepted,
    decreases ops.len(),
{
    if ops.len() > 0 {
        lemma_closed_stays_closed(apply_op(s, ops[0]), ops.subrange(1, ops.len() as int));
    }
}

/// No torn writes: an iteration hands the device either the whole oldest
/// queued buffer or nothing, and records exactly what it handed over.
pub proof fn lemma_step_all_or_nothing(s: SessionView, ev: ReadEventView)
    ensures
        (match step_outcome(s, ev).device_write {
            Some(buf) => !(ev is Failed) && s.pending.len() > 0 && buf == s.pending[0]
                && step_transition(s, ev).written == s.written.push(buf),
            None => step_transition(s, ev).written == s.written,
        }),
{
}

} // verus!
