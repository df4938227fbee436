//! The channel types of crossbeam that the server side hands packets through.

use crossbeam::channel::{Receiver, Sender, TryRecvError};
use vstd::prelude::*;

verus! {

/// The receiving end of a crossbeam channel, an opaque value here.
#[verifier::external_type_specification]
#[verifier::external_body]
#[verifier::reject_recursive_types(T)]
pub struct ExReceiver<T>(Receiver<T>);

/// The sending end of a crossbeam channel, an opaque value here.
#[verifier::external_type_specification]
#[verifier::external_body]
#[verifier::reject_recursive_types(T)]
pub struct ExSender<T>(Sender<T>);

/// Why a crossbeam `try_recv` returned no message.
#[verifier::external_type_specification]
#[verifier::external_body]
pub struct ExTryRecvError(TryRecvError);

/// `Clone::clone` of a crossbeam `Sender` gives the same handle: a sender of
/// the same kind on the same channel, which now counts one more sender. A
/// process with more than `isize::MAX` senders on one channel aborts.
pub assume_specification<T>[ <Sender<T> as Clone>::clone ](sender: &Sender<T>) -> (res: Sender<T>)
    ensures
        res == *sender,
;

/// `Clone::clone` of a crossbeam `Receiver` gives the same handle: a receiver
/// of the same kind on the same channel (for timer and never channels, the
/// same shared or empty one), which now counts one more receiver. A process
/// with more than `isize::MAX` receivers on one channel aborts.
pub assume_specification<T>[ <Receiver<T> as Clone>::clone ](receiver: &Receiver<T>) -> (res:
    Receiver<T>)
    ensures
        res == *receiver,
;

} // verus!
