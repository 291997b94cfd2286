use vstd::prelude::*;

use crate::session::Serial;
use std::io::Write;

verus! {

/// Relies on serial2::SerialPort::available_ports: the serial devices the
/// host currently reports, one identifier per device, converted to plain
/// strings in the host's order; `None` when the host refuses to enumerate,
/// with a diagnostic line on standard error. What comes back depends on
/// the machine, so nothing more is stated of it.
#[verifier::external_body]
fn available_port_names() -> (r: Option<Vec<String>>) {
    match serial2::SerialPort::available_ports() {
        Ok(ports) => Some(ports.iter().map(|p| format!("{}", p.display())).collect()),
        Err(e) => {
            let _ = writeln!(std::io::stderr(), "Failed to enumerate serial ports: {}", e);
            None
        },
    }
}

/// The listing `list_ports` answers for a given enumeration outcome: the
/// identifiers exactly as reported, or an empty listing when enumeration
/// failed — an enumeration error never reaches the caller.
pub fn ports_or_empty(outcome: Option<Vec<String>>) -> (r: Vec<String>)
    ensures
        outcome matches Some(ports) ==> r == ports,
        outcome is None ==> r@ == Seq::<String>::empty(),
{
    match outcome {
        Some(ports) => ports,
        None => Vec::new(),
    }
}

impl Serial {
    /// Lists the serial devices the host currently reports, in the host's
    /// order. Never fails the caller: when the host cannot enumerate, the
    /// listing is empty.
    pub fn list_ports() -> Vec<String> {
        ports_or_empty(available_port_names())
    }
}

} // verus!
