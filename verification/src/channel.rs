//! The hand-off channel: an unbounded first-in, first-out queue of signals.
//!
//! Any number of submitters append to it; the workers share its receiving
//! end and take from its front, one signal per receive. The channel knows
//! nothing about who receives: it only keeps the order of what was sent and
//! remembers whether a receiving end still exists. Without one, nothing can
//! be sent and nothing received.

use vstd::prelude::*;
use std::collections::VecDeque;
use crate::signal::Signal;

verus! {

/// An unbounded queue of signals together with the state of its receiving end.
///
/// Its view is the sequence of signals that were sent and not yet received,
/// oldest first.
pub struct Channel<J> {
    queue: VecDeque<Signal<J>>,
    connected: bool,
}

impl<J> View for Channel<J> {
    type V = Seq<Signal<J>>;

    closed spec fn view(&self) -> Seq<Signal<J>> {
        self.queue@
    }
}

impl<J> Channel<J> {
    /// Whether a receiving end still exists.
    pub closed spec fn connected(&self) -> bool {
        self.connected
    }

    /// An empty channel whose receiving end exists.
    pub fn new() -> (channel: Self)
        ensures
            channel@ == Seq::<Signal<J>>::empty(),
            channel.connected(),
    {
        Channel { queue: VecDeque::new(), connected: true }
    }

    /// Appends `signal` behind everything sent before it.
    ///
    /// Sending never waits. It fails exactly when the receiving end is gone,
    /// and then hands the signal back and leaves the channel as it was.
    pub fn send(&mut self, signal: Signal<J>) -> (outcome: Result<(), Signal<J>>)
        ensures
            final(self).connected() == old(self).connected(),
            old(self).connected() ==> outcome is Ok && final(self)@ == old(self)@.push(signal),
            !old(self).connected() ==> outcome == Err::<(), Signal<J>>(signal) && final(self)@
                == old(self)@,
    {
        if self.connected {
            self.queue.push_back(signal);
            Ok(())
        } else {
            Err(signal)
        }
    }

    /// Takes the oldest signal out of the channel.
    ///
    /// Returns `None` when nothing is queued, which is where a worker would
    /// have to wait, and when the receiving end is gone; the channel is then
    /// unchanged.
    pub fn receive(&mut self) -> (signal: Option<Signal<J>>)
        ensures
            final(self).connected() == old(self).connected(),
            old(self).connected() && old(self)@.len() > 0 ==> signal == Some(old(self)@[0])
                && final(self)@ == old(self)@.skip(1),
            !old(self).connected() || old(self)@.len() == 0 ==> signal is None && final(self)@
                == old(self)@,
    {
        if !self.connected {
            return None;
        }
        let signal = self.queue.pop_front();
        proof {
            if old(self)@.len() > 0 {
                assert(self@ =~= old(self)@.skip(1));
            }
        }
        signal
    }

    /// Drops the receiving end. Signals still queued stay where they are,
    /// never to be received.
    pub fn disconnect(&mut self)
        ensures
            !final(self).connected(),
            final(self)@ == old(self)@,
    {
        self.connected = false;
    }

    /// The number of signals waiting to be received.
    pub fn len(&self) -> (n: usize)
        ensures
            n == self@.len(),
    {
        self.queue.len()
    }

    /// Whether nothing is waiting to be received.
    pub fn is_empty(&self) -> (b: bool)
        ensures
            b == (self@.len() == 0),
    {
        self.queue.len() == 0
    }

    /// Whether a receiving end still exists.
    pub fn is_connected(&self) -> (b: bool)
        ensures
            b == self.connected(),
    {
        self.connected
    }
}

} // verus!
