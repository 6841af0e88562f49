use vstd::prelude::*;

verus! {

#[verifier::external_type_specification]
#[verifier::external_body]
#[verifier::reject_recursive_types(T)]
pub struct ExOneshotSender<T>(tokio::sync::oneshot::Sender<T>);

/// Relies on tokio's oneshot `Sender::send`: it consumes the handle and
/// completes the waiting receiver with the value. A waiter whose receiver
/// already went away reports an error, which delivery ignores: the engine
/// tolerates abandoned handles.
#[verifier::external_body]
fn send_result(waiter: tokio::sync::oneshot::Sender<Option<[u8; 4]>>, result: Option<[u8; 4]>) {
    let _ = waiter.send(result);
}

/// Completes every waiter with the one result, in order. Each completion
/// handle is consumed exactly once, so no waiter can hear twice.
pub fn deliver_all(
    waiters: Vec<tokio::sync::oneshot::Sender<Option<[u8; 4]>>>,
    result: Option<[u8; 4]>,
) {
    let mut rest = waiters;
    while rest.len() > 0
        decreases rest@.len(),
    {
        let waiter = rest.remove(0);
        send_result(waiter, result);
    }
}

} // verus!
