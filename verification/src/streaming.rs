//! Streaming a response body to a URL scheme task chunk by chunk.

use crate::message::ResponseHead;
use vstd::prelude::*;

verus! {

/// One operation made on a platform URL scheme task.
pub enum StreamOp {
    /// The response head was sent.
    Head(ResponseHead),
    /// A chunk of the body was sent.
    Data(Vec<u8>),
    /// The response was ended successfully.
    Finish,
    /// The response was ended with an error message.
    Fail(String),
}

/// The operations made on a platform task, in order, each with the answer
/// the platform gave to it.
pub type StreamTrace<E> = Seq<(StreamOp, Result<(), E>)>;

/// The operations a platform URL scheme task offers to a response stream.
///
/// Each operation may be refused by the platform, which then reports why.
/// An implementation keeps, in `trace`, every operation made through it and
/// the answer it gave; each operation appends exactly its own entry. What
/// the platform answers is not claimed.
pub trait PlatformAgnosticStreamHandle {
    type Error;

    /// The operations made through this handle so far, with their answers.
    spec fn trace(&self) -> StreamTrace<Self::Error>;

    /// Sends the response head.
    fn send_response(&mut self, response: ResponseHead) -> (r: Result<(), Self::Error>)
        ensures
            final(self).trace() == old(self).trace().push((StreamOp::Head(response), r)),
    ;

    /// Sends one chunk of the response body.
    fn send_data(&mut self, data: Vec<u8>) -> (r: Result<(), Self::Error>)
        ensures
            final(self).trace() == old(self).trace().push((StreamOp::Data(data), r)),
    ;

    /// Ends the response successfully.
    fn finish(&mut self) -> (r: Result<(), Self::Error>)
        ensures
            final(self).trace() == old(self).trace().push((StreamOp::Finish, r)),
    ;

    /// Ends the response with an error described by `error_message`.
    fn fail(&mut self, error_message: String) -> (r: Result<(), Self::Error>)
        ensures
            final(self).trace() == old(self).trace().push((StreamOp::Fail(error_message), r)),
    ;
}

/// An accepted operation's answer is `Ok(())`: the unit value is unique.
pub(crate) proof fn lemma_accepted<E>(r: Result<(), E>)
    requires
        r is Ok,
    ensures
        r == Ok::<(), E>(()),
{
    assert(r->Ok_0 == ());
}

/// A response whose head was sent and whose body is streamed in chunks,
/// to be completed with `finish` or `fail`.
#[must_use]
pub struct StreamHandle<H> {
    inner: H,
}

impl<H: PlatformAgnosticStreamHandle> StreamHandle<H> {
    /// The platform task this stream writes to.
    pub closed spec fn handle(self) -> H {
        self.inner
    }

    /// Sends the response head on `inner` and, once it was accepted, opens a
    /// stream for the body; where the platform refuses the head, its error
    /// is returned. The head is the one operation made on `inner`.
    pub fn new(inner: H, head: ResponseHead) -> (r: Result<Self, H::Error>)
        ensures
            match r {
                Ok(s) => s.handle().trace() == inner.trace().push((StreamOp::Head(head), Ok(()))),
                Err(e) => exists|h: H| #[trigger] h.trace() == inner.trace().push((StreamOp::Head(head), Err(e))),
            },
    {
        let mut inner = inner;
        let ghost start = inner.trace();
        let sent = inner.send_response(head);
        match sent {
            Ok(()) => {
                proof { lemma_accepted(sent); }
                Ok(StreamHandle { inner })
            },
            Err(e) => {
                assert(inner.trace() == start.push((StreamOp::Head(head), Err::<(), H::Error>(e))));
                Err(e)
            },
        }
    }

    /// Sends one chunk of the body, giving the stream back for the next one;
    /// where the platform refuses the chunk, its error is returned. The chunk
    /// is the one operation made on the platform task.
    pub fn send_chunk(self, chunk: Vec<u8>) -> (r: Result<Self, H::Error>)
        ensures
            match r {
                Ok(s) => s.handle().trace() == self.handle().trace().push((StreamOp::Data(chunk), Ok(()))),
                Err(e) => exists|h: H| #[trigger] h.trace() == self.handle().trace().push((StreamOp::Data(chunk), Err(e))),
            },
    {
        let mut inner = self.inner;
        let ghost start = inner.trace();
        let sent = inner.send_data(chunk);
        match sent {
            Ok(()) => {
                proof { lemma_accepted(sent); }
                Ok(StreamHandle { inner })
            },
            Err(e) => {
                assert(inner.trace() == start.push((StreamOp::Data(chunk), Err::<(), H::Error>(e))));
                Err(e)
            },
        }
    }

    /// Completes the response successfully, returning the platform's answer.
    /// Finishing is the one operation made on the platform task.
    pub fn finish(self) -> (r: Result<(), H::Error>)
        ensures
            exists|h: H| #[trigger] h.trace() == self.handle().trace().push((StreamOp::Finish, r)),
    {
        let mut inner = self.inner;
        let r = inner.finish();
        assert(inner.trace() == self.handle().trace().push((StreamOp::Finish, r)));
        r
    }

    /// Completes the response with an error described by `error_message`,
    /// returning the platform's answer. Failing, with that message, is the one
    /// operation made on the platform task.
    pub fn fail(self, error_message: String) -> (r: Result<(), H::Error>)
        ensures
            exists|h: H| #[trigger] h.trace() == self.handle().trace().push((StreamOp::Fail(error_message), r)),
    {
        let mut inner = self.inner;
        let r = inner.fail(error_message);
        assert(inner.trace() == self.handle().trace().push((StreamOp::Fail(error_message), r)));
        r
    }
}

} // verus!
