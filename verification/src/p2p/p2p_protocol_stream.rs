//! Dispatch of the messages read from the relay stream to the callbacks
//! registered for their payload type.
use vstd::prelude::*;

use crate::proto::proto::ProtoMessage;

verus! {

/// A handler for the messages of one payload type, shared between the stream
/// reader and its owner.
pub struct Callback<F> {
    f: std::sync::Arc<F>,
}

/// Calls `Arc::clone`: another handle to the same value.
#[verifier::external_body]
fn share<F>(a: &std::sync::Arc<F>) -> (r: std::sync::Arc<F>)
    ensures
        *r == **a,
{
    std::sync::Arc::clone(a)
}

impl<F> Callback<F> {
    /// The handler's function.
    pub closed spec fn handler(&self) -> F {
        *self.f
    }

    /// A callback that runs `f`.
    pub fn new(f: F) -> (r: Self)
        ensures
            r.handler() == f,
    {
        Callback { f: std::sync::Arc::new(f) }
    }

    /// Runs the handler on `data` and returns what it returns.
    pub fn call<R>(&self, data: ProtoMessage) -> (r: R) where F: Fn(ProtoMessage) -> R
        requires
            self.handler().requires((data,)),
        ensures
            self.handler().ensures((data,), r),
    {
        (*self.f)(data)
    }
}

impl<F> Clone for Callback<F> {
    fn clone(&self) -> (r: Self)
        ensures
            r.handler() == self.handler(),
    {
        Callback { f: share(&self.f) }
    }
}

/// The key a message is dispatched by: the payload type of its base, if it has
/// one.
pub fn dispatch_key(msg: &ProtoMessage) -> (r: Option<&str>)
    ensures
        match msg.message_base {
            Some(b) => r matches Some(k) && k@ == b.payload_type@,
            None => r is None,
        },
{
    match &msg.message_base {
        Some(b) => Some(b.payload_type.as_str()),
        None => None,
    }
}

/// What the read loop does with one frame from the stream.
#[derive(Debug, Clone, PartialEq, Eq)]
pub enum ReadStep {
    /// Receiving failed: the loop ends.
    Stop,
    /// The frame is no protobuf message: it is logged and skipped.
    SkipUndecodable,
    /// The message has no base, so no payload type: it is logged and skipped.
    SkipNoBase,
    /// Hand the message to the callback registered for this payload type
    /// (or warn that there is none).
    Dispatch(String),
}

/// What the read loop does with a frame: `received` tells whether receiving
/// succeeded, `decoded` whether the frame decoded, and to what message.
pub fn read_step(received: bool, decoded: Option<&ProtoMessage>) -> (r: ReadStep)
    ensures
        !received ==> r == ReadStep::Stop,
        received ==> match decoded {
            None => r == ReadStep::SkipUndecodable,
            Some(m) => match m.message_base {
                None => r == ReadStep::SkipNoBase,
                Some(b) => r matches ReadStep::Dispatch(k) && k@ == b.payload_type@,
            },
        },
{
    if !received {
        return ReadStep::Stop;
    }
    match decoded {
        None => ReadStep::SkipUndecodable,
        Some(m) => match dispatch_key(m) {
            None => ReadStep::SkipNoBase,
            Some(k) => ReadStep::Dispatch(k.to_string()),
        },
    }
}

/// Whether (re)starting the protocol must create its channel and its read and
/// write loops: unless all three are already running.
pub fn needs_start(has_sender: bool, has_reader: bool, has_writer: bool) -> (r: bool)
    ensures
        r == !(has_sender && has_reader && has_writer),
{
    !(has_sender && has_reader && has_writer)
}

} // verus!
