use vstd::prelude::*;

use crate::session::{
    close_transition, initial_state, step_outcome, step_transition, write_transition, ReadEvent,
    Serial, SessionView, StepOutcome, WriteStatus,
};
use vstd::string::StringExecFns;

verus! {

/// Whether a device identifier occurs in a port listing.
pub open spec fn port_listed(ports: Seq<Seq<char>>, port: Seq<char>) -> bool {
    exists|i: int| 0 <= i < ports.len() && ports[i] == port
}

/// Whether `port` occurs among the identifiers in `ports`.
pub fn contains_port(ports: &Vec<String>, port: &String) -> (r: bool)
    ensures
        r == port_listed(ports.deep_view(), port@),
{
    let mut i: usize = 0;
    while i < ports.len()
        invariant
            i <= ports.len(),
            forall|k: int| 0 <= k < i ==> ports.deep_view()[k] != port@,
        decreases ports.len() - i,
    {
        if ports[i] == *port {
            proof {
                assert(ports.deep_view()[i as int] == port@);
            }
            return true;
        }
        i += 1;
    }
    false
}

/// The caller-side bookkeeping around "the one open session": a slot that
/// holds at most one live session at a time, the explicit "already open"
/// check that the session itself does not enforce, and the close request
/// that empties the slot. Its value is the state of the session it holds,
/// if any.
pub struct SlotController {
    session: Option<Serial>,
}

impl View for SlotController {
    type V = Option<SessionView>;

    closed spec fn view(&self) -> Option<SessionView> {
        match self.session {
            Some(serial) => Some(serial@),
            None => None,
        }
    }
}

impl SlotController {
    /// The baud rate of the session the slot holds, if any.
    pub closed spec fn spec_session_baud(&self) -> Option<u32> {
        match self.session {
            Some(serial) => Some(serial.spec_baud()),
            None => None,
        }
    }

    /// The read timeout of the session the slot holds, if any.
    pub closed spec fn spec_session_read_timeout_ms(&self) -> Option<u64> {
        match self.session {
            Some(serial) => Some(serial.spec_read_timeout_ms()),
            None => None,
        }
    }

    /// A controller whose slot is empty: nothing open yet.
    pub fn new() -> (c: SlotController)
        ensures
            c@ is None,
    {
        SlotController { session: None }
    }

    /// Handles an open request against the given port listing. An
    /// identifier absent from the listing yields "Port not found" and
    /// touches nothing, so no device I/O may follow; an occupied slot
    /// yields "Port already open" and leaves the live session exactly as it
    /// was, so no second loop is spawned; otherwise a fresh session fills
    /// the slot, "Port opened" comes back, and only then may the caller
    /// open the device and start its one loop.
    pub fn request_open(
        &mut self,
        ports: &Vec<String>,
        port: &String,
        baud: u32,
        read_timeout_ms: u64,
    ) -> (status: String)
        requires
            baud > 0,
        ensures
            !port_listed(ports.deep_view(), port@) ==> final(self)@ == old(self)@ && status@
                == "Port not found"@,
            port_listed(ports.deep_view(), port@) && old(self)@ is Some ==> final(self)@ == old(
                self,
            )@ && status@ == "Port already open"@,
            port_listed(ports.deep_view(), port@) && old(self)@ is None ==> final(self)@ == Some(
                initial_state(),
            ) && status@ == "Port opened"@ && final(self).spec_session_baud() == Some(baud)
                && final(self).spec_session_read_timeout_ms() == Some(read_timeout_ms),
    {
        if !contains_port(ports, port) {
            return String::from_str("Port not found");
        }
        if self.session.is_some() {
            return String::from_str("Port already open");
        }
        self.session = Some(Serial::open(baud, read_timeout_ms));
        String::from_str("Port opened")
    }

    /// Handles a close request: downs the session's flag and empties the
    /// slot. On an empty slot — never opened, or closed before — it does
    /// nothing, so a second close has no effect beyond the first.
    pub fn request_close(&mut self)
        ensures
            final(self)@ is None,
    {
        match &mut self.session {
            Some(serial) => {
                serial.close();
            },
            None => {},
        }
        self.session = None;
    }

    /// Hands an outbound write request to whatever session the slot holds:
    /// queued while the session is open, dropped once it is closed. On an
    /// empty slot nothing happens and `None` says so.
    pub fn write(&mut self, buf: Vec<u8>) -> (r: Option<WriteStatus>)
        ensures
            old(self)@ is None ==> final(self)@ == old(self)@ && r is None,
            old(self)@ matches Some(s) ==> final(self)@ == Some(write_transition(s, buf@)) && r
                == Some(
                if s.is_open {
                    WriteStatus::Enqueued
                } else {
                    WriteStatus::Closed
                },
            ),
            final(self).spec_session_baud() == old(self).spec_session_baud(),
            final(self).spec_session_read_timeout_ms() == old(self).spec_session_read_timeout_ms(),
    {
        match &mut self.session {
            Some(serial) => Some(serial.write(buf)),
            None => None,
        }
    }

    /// One background-loop iteration against whatever session the slot
    /// holds, given the outcome of the timed read. `None` tells the loop
    /// its session is gone and it must exit and drop the device handle.
    pub fn step(&mut self, event: ReadEvent) -> (r: Option<StepOutcome>)
        ensures
            old(self)@ is None ==> final(self)@ == old(self)@ && r is None,
            old(self)@ matches Some(s) ==> final(self)@ == Some(step_transition(s, event@)) && (
            r matches Some(out) && out@ == step_outcome(s, event@)),
            final(self).spec_session_baud() == old(self).spec_session_baud(),
            final(self).spec_session_read_timeout_ms() == old(self).spec_session_read_timeout_ms(),
    {
        match &mut self.session {
            Some(serial) => Some(serial.step(event)),
            None => None,
        }
    }
}

} // verus!
