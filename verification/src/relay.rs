//! The decisions of the relay loops (the TCP feed and speech generation): the
//! feed ends only when its stream has ended and nothing is left to decode; a
//! packet that fails to decode, or fails to be spoken, is dropped and the loop
//! goes on with the next.
use vstd::prelude::*;

verus! {

/// A packet of the TCP feed.
#[derive(Clone, Debug)]
pub struct Packet {
    pub language: String,
    pub original_text: Option<String>,
    pub translated_text: String,
}

/// What to do with the bytes the frame reader handed back: `None` ends the
/// feed, which happens only when the stream ended with nothing gathered; any
/// other bytes (an empty frame on an open stream among them) are decoded.
pub fn on_frame(frame: Vec<u8>, stream_ended: bool) -> (next: Option<Vec<u8>>)
    ensures
        next is None <==> (stream_ended && frame@.len() == 0),
        next matches Some(f) ==> f@ == frame@,
{
    if stream_ended && frame.len() == 0 {
        None
    } else {
        Some(frame)
    }
}

/// What a relay loop does with the outcome of work on one item.
pub enum ItemStep<T, E> {
    /// The item failed and is dropped (its error is for the log): go on.
    Skip(E),
    /// Pass this on.
    Deliver(T),
}

/// The outcome of work on one item (decoding a packet, producing speech): a
/// failure is skipped with its error, a success is passed on.
pub fn on_item<T, E>(outcome: Result<T, E>) -> (step: ItemStep<T, E>)
    ensures
        match outcome {
            Ok(v) => step matches ItemStep::Deliver(d) && d == v,
            Err(e) => step matches ItemStep::Skip(s) && s == e,
        },
{
    match outcome {
        Ok(v) => ItemStep::Deliver(v),
        Err(e) => ItemStep::Skip(e),
    }
}

} // verus!
