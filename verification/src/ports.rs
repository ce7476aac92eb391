//! The port-probing decisions of startup.
//!
//! The process binds the first free port among a budget of successive
//! candidates starting at the preferred port; when the budget is
//! exhausted (or the candidates run past the largest port number) it
//! gives up. The decision which port to try next is made here; the
//! bind attempts themselves happen at the network edge.

use vstd::prelude::*;

verus! {

/// The port to try at attempt number `attempt` (counted from zero):
/// `start + attempt`, as long as the attempt is within the budget and
/// the sum still is a port number. `None` says to give up.
pub fn probe_port(start: u16, budget: u16, attempt: u16) -> (r: Option<u16>)
    ensures
        attempt < budget && start + attempt <= u16::MAX ==> r == Some((start + attempt) as u16),
        !(attempt < budget && start + attempt <= u16::MAX) ==> r is None,
{
    if attempt < budget {
        let candidate: u32 = start as u32 + attempt as u32;
        if candidate <= u16::MAX as u32 {
            Some(candidate as u16)
        } else {
            None
        }
    } else {
        None
    }
}

/// The address octets to bind: every interface when public access is
/// allowed, the loopback interface otherwise.
pub fn bind_octets(public: bool) -> (r: (u8, u8, u8, u8))
    ensures
        public ==> r == (0u8, 0u8, 0u8, 0u8),
        !public ==> r == (127u8, 0u8, 0u8, 1u8),
{
    if public {
        (0, 0, 0, 0)
    } else {
        (127, 0, 0, 1)
    }
}

} // verus!
