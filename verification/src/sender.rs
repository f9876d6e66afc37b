//! The outbound email port: the one interface the surrounding runtime
//! implements to deliver codes and links. The library only decides what to
//! send; transports live outside it.

use vstd::prelude::*;

verus! {

/// A destination for verification emails. Implementations perform the
/// delivery; the deduplication id makes retries idempotent.
pub trait EmailSender {
    /// Deliver `body` to `email`, returning a transport error message on
    /// failure.
    fn send(&self, email: String, body: String, idempotency_id: u64, now_millis: u64) -> Result<
        (),
        String,
    >;
}

/// A sender that drops everything, for deterministic test deployments.
pub struct NullEmailSender {}

impl Default for NullEmailSender {
    /// The only value of the type.
    fn default() -> (r: Self)
        ensures
            true,
    {
        NullEmailSender {  }
    }
}

impl EmailSender for NullEmailSender {
    fn send(&self, _email: String, _body: String, _idempotency_id: u64, _now_millis: u64)
        -> Result<(), String> {
        Ok(())
    }
}

} // verus!
