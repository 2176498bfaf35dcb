use vstd::prelude::*;

verus! {

#[verifier::external_type_specification]
#[verifier::external_body]
#[verifier::reject_recursive_types(T)]
pub struct ExSender<T>(crossbeam::channel::Sender<T>);

#[verifier::external_type_specification]
#[verifier::external_body]
#[verifier::reject_recursive_types(T)]
pub struct ExReceiver<T>(crossbeam::channel::Receiver<T>);

/// What became of a message offered to a channel without blocking.
#[derive(Clone, Copy, Debug, PartialEq, Eq, Structural)]
pub enum SendOutcome {
    Sent,
    Full,
    Disconnected,
}

/// What a non-blocking receive found.
pub enum RecvOutcome<T> {
    Received(T),
    Empty,
    Disconnected,
}

/// Relies on crossbeam's `Sender::try_send`, which never blocks. Whether the message
/// fits depends on the receiving thread, so nothing is promised of the outcome.
#[verifier::external_body]
pub(crate) fn offer<T>(tx: &crossbeam::channel::Sender<T>, msg: T) -> (r: SendOutcome) {
    match tx.try_send(msg) {
        Ok(()) => SendOutcome::Sent,
        Err(crossbeam::channel::TrySendError::Full(_)) => SendOutcome::Full,
        Err(crossbeam::channel::TrySendError::Disconnected(_)) => SendOutcome::Disconnected,
    }
}

/// Relies on crossbeam's `Receiver::try_recv`, which never blocks. What is waiting
/// depends on the sending thread, so nothing is promised of the outcome.
#[verifier::external_body]
pub(crate) fn poll<T>(rx: &crossbeam::channel::Receiver<T>) -> (r: RecvOutcome<T>) {
    match rx.try_recv() {
        Ok(v) => RecvOutcome::Received(v),
        Err(crossbeam::channel::TryRecvError::Empty) => RecvOutcome::Empty,
        Err(crossbeam::channel::TryRecvError::Disconnected) => RecvOutcome::Disconnected,
    }
}

} // verus!
