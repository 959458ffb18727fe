//! The sending end of std's channels, through which the library hands tasks,
//! delayed tasks and statistics events to other threads.

use std::sync::mpsc::Sender;
use vstd::prelude::*;

verus! {

#[verifier::external_type_specification]
#[verifier::external_body]
#[verifier::reject_recursive_types(T)]
pub struct ExSender<T>(Sender<T>);

/// `Clone` of `std::sync::mpsc::Sender`: a new sending end of the same
/// channel. Nothing is claimed of the result.
pub assume_specification<T>[ <Sender<T> as Clone>::clone ](sender: &Sender<T>) -> Sender<T>;

/// Sends `value` on the channel.
///
/// Calls `std::sync::mpsc::Sender::send`. Whether the value is accepted
/// depends on whether the receiving end is still alive, which is decided by
/// another thread; the result, `true` when it was accepted, is therefore left
/// unstated.
#[verifier::external_body]
pub(crate) fn channel_send<T>(sender: &Sender<T>, value: T) -> (accepted: bool) {
    sender.send(value).is_ok()
}

} // verus!
