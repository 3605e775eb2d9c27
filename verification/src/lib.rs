//! Core of a function-invocation runtime: a polymorphic handler contract,
//! the wire codec of the invocation protocol, and the decision core of the
//! poll/dispatch/report loop.
//!
//! The executor repeatedly fetches one unit of work from an event source,
//! dispatches it to a user-supplied [`Handler`], and reports the outcome —
//! the serialized output, or a [`types::Diagnostic`] built from the
//! handler's error — back to the event source. A handler failure is
//! reported and the loop goes on; a protocol or envelope failure is fatal
//! to the loop and surfaces as a [`types::Error`].
//!
//! The transport that carries [`requests::RuntimeRequest`] values to the
//! endpoint, and the environment the configuration is read from, live with
//! the embedding program; everything that decides and encodes lives here.

pub mod chars;
pub mod executor;
pub mod json;
pub mod requests;
pub mod types;

use vstd::prelude::*;

verus! {

/// Configuration snapshot derived from the host environment, captured once
/// per invocation.
#[derive(Debug, Default, Clone, PartialEq)]
pub struct Config {
    /// The host and port of the runtime API endpoint.
    pub endpoint: String,
    /// The name of the function.
    pub function_name: String,
    /// The amount of memory available to the function in MB.
    pub memory: i32,
    /// The version of the function being executed.
    pub version: String,
    /// The name of the log stream for the function.
    pub log_stream: String,
    /// The name of the log group for the function.
    pub log_group: String,
}

/// A unit of computation from an event of type `A` to an output of type
/// `B`, invoked once per fetched invocation. Handlers may keep arbitrary
/// state across calls; the executor takes a mutable reference on each call.
pub trait Handler<A, B>: Sized {
    /// Errors returned by this handler.
    type Err;

    /// When the handler may be invoked on `event`.
    spec fn pre(&self, event: A) -> bool;

    /// What holds of the result, and of the handler's state `next` after
    /// the call, when the handler is invoked on `event`.
    spec fn post(&self, event: A, r: Result<B, Self::Err>, next: Self) -> bool;

    /// Process the incoming event and return the response.
    fn call(&mut self, event: A) -> (r: Result<B, Self::Err>)
        requires
            old(self).pre(event),
        ensures
            old(self).post(event, r, *final(self)),
    ;
}

/// Returns a new `HandlerFn` with the given function.
pub fn handler_fn<F>(f: F) -> (r: HandlerFn<F>)
    ensures
        r.f == f,
{
    HandlerFn { f }
}

/// A `Handler` implemented by a function value: stateless logic need not
/// define a dedicated type.
#[derive(Clone, Debug)]
pub struct HandlerFn<F> {
    /// The wrapped function.
    pub f: F,
}

impl<F, A, B, E> Handler<A, B> for HandlerFn<F> where F: Fn(A) -> Result<B, E> {
    type Err = E;

    open spec fn pre(&self, event: A) -> bool {
        self.f.requires((event,))
    }

    open spec fn post(&self, event: A, r: Result<B, E>, next: Self) -> bool {
        self.f.ensures((event,), r) && next == *self
    }

    fn call(&mut self, event: A) -> (r: Result<B, E>) {
        (self.f)(event)
    }
}

} // verus!
