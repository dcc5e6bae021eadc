//! One-shot notification handles. A request keeps the receiving half; the
//! matcher keeps the sending half while the request waits and fires it when
//! the counterpart arrives.

use vstd::prelude::*;

verus! {

/// `tokio::sync::oneshot::Sender`, the single-use sending half. Nothing of
/// its inside is visible to the proofs: it is carried through and fired.
#[verifier::external_type_specification]
#[verifier::external_body]
#[verifier::reject_recursive_types(T)]
pub struct ExSender<T>(tokio::sync::oneshot::Sender<T>);

/// `tokio::sync::oneshot::Receiver`, the single-use receiving half. Nothing
/// of its inside is visible to the proofs: it is kept for its owner to wait
/// on.
#[verifier::external_type_specification]
#[verifier::external_body]
#[verifier::reject_recursive_types(T)]
pub struct ExReceiver<T>(tokio::sync::oneshot::Receiver<T>);

/// `tokio::sync::oneshot::error::RecvError`, what a receiver yields when its
/// sender went away without firing. It is declared because the receiver's
/// own declaration names it; nothing here reads it.
#[verifier::external_type_specification]
#[verifier::external_body]
pub struct ExRecvError(tokio::sync::oneshot::error::RecvError);

/// `tokio::sync::oneshot::channel`. Each call makes a new pair, so nothing
/// is claimed of what comes back.
pub assume_specification<T>[ tokio::sync::oneshot::channel::<T> ]() -> (halves: (
    tokio::sync::oneshot::Sender<T>,
    tokio::sync::oneshot::Receiver<T>,
));

/// `tokio::sync::oneshot::Sender::send`. It consumes the sender and never
/// waits. Whether the value is taken depends on whether the receiving half
/// is still alive at that moment, so nothing is claimed of the result.
pub assume_specification<T>[ tokio::sync::oneshot::Sender::<T>::send ](
    sender: tokio::sync::oneshot::Sender<T>,
    t: T,
) -> (sent: Result<(), T>);

} // verus!
