use vstd::prelude::*;

verus! {

/// Sending half of tokio's bounded queue, `tokio::sync::mpsc::Sender`. Nothing
/// is known of what is inside one.
#[verifier::external_type_specification]
#[verifier::external_body]
#[verifier::reject_recursive_types(T)]
pub struct ExQueueSender<T>(tokio::sync::mpsc::Sender<T>);

/// Receiving half of tokio's bounded queue, `tokio::sync::mpsc::Receiver`.
#[verifier::external_type_specification]
#[verifier::external_body]
#[verifier::reject_recursive_types(T)]
pub struct ExQueueReceiver<T>(tokio::sync::mpsc::Receiver<T>);

/// The value that `tokio::sync::mpsc::Sender::send` hands back when the queue
/// is closed, `tokio::sync::mpsc::error::SendError`.
#[verifier::external_type_specification]
#[verifier::external_body]
#[verifier::reject_recursive_types(T)]
pub struct ExQueueSendError<T>(tokio::sync::mpsc::error::SendError<T>);

/// Writing half of tokio's broadcast slot, `tokio::sync::watch::Sender`.
#[verifier::external_type_specification]
#[verifier::external_body]
#[verifier::reject_recursive_types(T)]
pub struct ExSlotSender<T>(tokio::sync::watch::Sender<T>);

/// Reading half of tokio's broadcast slot, `tokio::sync::watch::Receiver`.
#[verifier::external_type_specification]
#[verifier::external_body]
#[verifier::reject_recursive_types(T)]
pub struct ExSlotReceiver<T>(tokio::sync::watch::Receiver<T>);

/// The value that `tokio::sync::watch::Sender::send` hands back when no reader
/// is left, `tokio::sync::watch::error::SendError`.
#[verifier::external_type_specification]
#[verifier::external_body]
#[verifier::reject_recursive_types(T)]
pub struct ExSlotSendError<T>(tokio::sync::watch::error::SendError<T>);

/// `tokio::sync::mpsc::channel` makes a bounded queue. It panics on a capacity
/// of zero or above an eighth of `usize::MAX`, so those are ruled out; nothing
/// is claimed of the two halves.
pub assume_specification<T>[ tokio::sync::mpsc::channel::<T> ](buffer: usize) -> (r: (
    tokio::sync::mpsc::Sender<T>,
    tokio::sync::mpsc::Receiver<T>,
))
    requires
        0 < buffer <= usize::MAX / 8,
;

/// `tokio::sync::watch::channel` makes a broadcast slot that starts out holding
/// `init`; nothing is claimed of the two halves.
pub assume_specification<T>[ tokio::sync::watch::channel::<T> ](init: T) -> (r: (
    tokio::sync::watch::Sender<T>,
    tokio::sync::watch::Receiver<T>,
));

/// `tokio::sync::watch::Sender::send` puts `value` in the slot, or fails when
/// every reader is gone. Which of the two happens depends on the other tasks,
/// so nothing is claimed of the result.
pub assume_specification<T>[ tokio::sync::watch::Sender::<T>::send ](
    tx: &tokio::sync::watch::Sender<T>,
    value: T,
) -> (r: Result<(), tokio::sync::watch::error::SendError<T>>);

/// `Clone` of `tokio::sync::watch::Receiver`: one more reader of the same slot.
/// The clone holds the same pointer to the slot and the same last-seen version
/// as the reader it was made from, so as a value it is that reader.
pub assume_specification<T>[ <tokio::sync::watch::Receiver<T> as Clone>::clone ](
    rx: &tokio::sync::watch::Receiver<T>,
) -> (r: tokio::sync::watch::Receiver<T>)
    ensures
        r == *rx,
;

/// `Clone` of `tokio::sync::mpsc::Sender`: one more sender into the same queue.
/// The clone holds the same pointer to the queue as the sender it was made
/// from, and nothing else, so as a value it is that sender.
pub assume_specification<T>[ <tokio::sync::mpsc::Sender<T> as Clone>::clone ](
    tx: &tokio::sync::mpsc::Sender<T>,
) -> (r: tokio::sync::mpsc::Sender<T>)
    ensures
        r == *tx,
;

/// `tokio::sync::watch::Receiver::borrow`, with the value cloned out so that
/// the read lock is given back at once. The slot holds whatever its writer
/// sent last, which this reader cannot know: nothing is claimed of the result.
#[verifier::external_body]
pub(crate) fn latest<T: Clone>(rx: &tokio::sync::watch::Receiver<T>) -> (r: T) {
    rx.borrow().clone()
}

} // verus!
