//! The standard library's multi-producer channel, as seen by the verified code.
use std::sync::mpsc::{Receiver, SendError, Sender};
use vstd::prelude::*;

verus! {

/// The sending half of a channel: an opaque endpoint.
#[verifier::external_type_specification]
#[verifier::external_body]
#[verifier::reject_recursive_types(T)]
pub struct ExSender<T>(Sender<T>);

/// The receiving half of a channel: an opaque handle.
#[verifier::external_type_specification]
#[verifier::external_body]
#[verifier::reject_recursive_types(T)]
pub struct ExReceiver<T>(Receiver<T>);

/// The error a send returns when the receiving half is gone.
#[verifier::external_type_specification]
#[verifier::external_body]
#[verifier::reject_recursive_types(T)]
pub struct ExSendError<T>(SendError<T>);

/// Relies on `std::sync::mpsc::channel`: it makes a new sender/receiver pair.
/// Nothing about the pair is needed by the callers.
pub assume_specification<T>[ std::sync::mpsc::channel::<T> ]() -> (Sender<T>, Receiver<T>);

/// Relies on `Sender::send`: it hands the value to the channel, or fails when
/// the receiving half has been dropped. Whether it fails depends on another
/// thread, so nothing is promised of the outcome.
pub assume_specification<T>[ Sender::<T>::send ](s: &Sender<T>, t: T) -> Result<(), SendError<T>>;

} // verus!
