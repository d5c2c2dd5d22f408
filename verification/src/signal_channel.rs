//! The sending end of the channel from the diff timer's handle to its
//! countdown loop, with a record of every signal handed to `Sender::send`.

use vstd::prelude::*;

use std::sync::mpsc::Sender;

use crate::when_to_diff_timer::Signal;

verus! {

/// The sending half of `std::sync::mpsc::channel`, carried as an opaque
/// value.
#[verifier::external_type_specification]
#[verifier::external_body]
#[verifier::reject_recursive_types(T)]
pub struct ExSender<T>(Sender<T>);

/// A `Sender<Signal>` together with the signals handed to it so far. Only
/// `send`, which makes the call, extends the record.
pub struct SignalSender {
    tx: Sender<Signal>,
    handed: Ghost<Seq<Signal>>,
}

impl SignalSender {
    /// The signals passed to `Sender::send` through this value, oldest first.
    pub closed spec fn log(&self) -> Seq<Signal> {
        self.handed@
    }

    /// Starts with nothing sent yet.
    pub fn new(tx: Sender<Signal>) -> (r: SignalSender)
        ensures
            r.log() == Seq::<Signal>::empty(),
    {
        SignalSender { tx, handed: Ghost(Seq::empty()) }
    }

    /// `Sender::send(signal)`: the signal is handed to the channel, and the
    /// record grows by it. Whether the receiving loop is still there to take
    /// it is not stated: std reports that in the result, which is dropped.
    #[verifier::external_body]
    pub(crate) fn send(&mut self, signal: Signal)
        ensures
            final(self).log() == old(self).log().push(signal),
    {
        let _ = self.tx.send(signal);
    }
}

} // verus!
