//! The messages that travel over the hand-off channel.

use vstd::prelude::*;

verus! {

/// One message on the hand-off channel.
///
/// A signal is built when it is sent and taken apart when it is received; the
/// job inside a `Work` signal belongs to the channel until a worker dequeues
/// it, and to that worker from then on.
#[derive(Debug, PartialEq, Eq)]
pub enum Signal<J> {
    /// A job to be run, once, by whichever worker receives it.
    Work(J),
    /// The directive to leave the receive loop for good.
    Terminate,
}

} // verus!
