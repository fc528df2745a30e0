//! A real-time chat relay: posted messages are fanned out over a bounded
//! broadcast bus to every live subscription stream.
pub mod bus;
pub mod message;
pub mod session;

use crate::bus::{Bus, DEFAULT_CAPACITY, new_spec, publish_spec};
use crate::message::{Message, ValidationError, validate_spec};
use vstd::prelude::*;

verus! {

/// The process-wide state the server is built on: an empty, open bus of
/// `DEFAULT_CAPACITY` slots.
pub fn rocket() -> (r: Bus)
    ensures
        r.wf(),
        r@ == new_spec(DEFAULT_CAPACITY as nat),
{
    Bus::new(DEFAULT_CAPACITY)
}

/// What posting the three fields does: a valid message is published
/// (fire-and-forget), an invalid one is refused and the bus is untouched.
pub open spec fn post_spec(b: bus::BusView, room: Seq<char>, username: Seq<char>, message: Seq<char>) -> (
    bus::BusView,
    Result<(), ValidationError>,
) {
    match validate_spec(room, username, message) {
        Ok(m) => (publish_spec(b, m), Ok(())),
        Err(e) => (b, Err(e)),
    }
}

/// Handles a posted message: validates the fields, then publishes. Whether
/// anyone was listening does not matter to the poster.
pub fn post(bus: &mut Bus, room: String, username: String, message: String) -> (r: Result<
    (),
    ValidationError,
>)
    requires
        old(bus).wf(),
        old(bus)@.log.len() < u64::MAX,
    ensures
        final(bus).wf(),
        (final(bus)@, r) == post_spec(old(bus)@, room@, username@, message@),
{
    match Message::new(room, username, message) {
        Ok(m) => {
            let _taken = bus.publish(m);
            Ok(())
        },
        Err(e) => Err(e),
    }
}

} // verus!
