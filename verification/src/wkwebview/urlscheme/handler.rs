//! What the URL scheme handler does with a complete response.

use crate::message::HttpResponse;
use crate::streaming::{lemma_accepted, PlatformAgnosticStreamHandle, StreamOp};
use vstd::prelude::*;

verus! {

/// Answers a request with a complete response: the head, then the whole body
/// as one chunk, then completion. The first operation the platform refuses
/// ends the answer, and its error is returned; no other operation is made.
pub fn respond<H: PlatformAgnosticStreamHandle>(handle: &mut H, response: HttpResponse<Vec<u8>>) -> (r: Result<(), H::Error>)
    ensures
        match r {
            Ok(()) => final(handle).trace() == old(handle).trace() + seq![
                (StreamOp::Head(response.head), Ok(())),
                (StreamOp::Data(response.body), Ok(())),
                (StreamOp::Finish, Ok(())),
            ],
            Err(e) => {
                ||| final(handle).trace() == old(handle).trace() + seq![
                    (StreamOp::Head(response.head), Err(e)),
                ]
                ||| final(handle).trace() == old(handle).trace() + seq![
                    (StreamOp::Head(response.head), Ok(())),
                    (StreamOp::Data(response.body), Err(e)),
                ]
                ||| final(handle).trace() == old(handle).trace() + seq![
                    (StreamOp::Head(response.head), Ok(())),
                    (StreamOp::Data(response.body), Ok(())),
                    (StreamOp::Finish, Err(e)),
                ]
            },
        },
{
    let HttpResponse { head, body } = response;
    let ghost start = handle.trace();
    let sent = handle.send_response(head);
    if let Err(e) = sent {
        assert(handle.trace() =~= start + seq![(StreamOp::Head(head), Err::<(), H::Error>(e))]);
        return Err(e);
    }
    proof { lemma_accepted(sent); }
    let delivered = handle.send_data(body);
    if let Err(e) = delivered {
        assert(handle.trace() =~= start + seq![
            (StreamOp::Head(head), Ok::<(), H::Error>(())),
            (StreamOp::Data(body), Err::<(), H::Error>(e)),
        ]);
        return Err(e);
    }
    proof { lemma_accepted(delivered); }
    let finished = handle.finish();
    assert(handle.trace() =~= start + seq![
        (StreamOp::Head(head), Ok::<(), H::Error>(())),
        (StreamOp::Data(body), Ok::<(), H::Error>(())),
        (StreamOp::Finish, finished),
    ]);
    proof {
        if finished is Ok {
            lemma_accepted(finished);
        }
    }
    finished
}

} // verus!
