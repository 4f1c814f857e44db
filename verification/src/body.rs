use vstd::prelude::*;

verus! {

/// One pull-read outcome of a request-body source.
#[derive(Debug, PartialEq, Eq)]
pub enum ReadOutcome {
    /// Some bytes, at most as many as were asked for.
    Data(Vec<u8>),
    /// Clean end of the stream: no byte now, and none to come.
    Eof,
    /// A read failure other than end of stream.
    Failed,
}

/// A pull-based source of outbound request bytes. The engine asks for
/// at most `max` bytes per call; the source answers with bytes, with a
/// clean end of stream, or with a failure. Any object with this
/// capability may supply a request body; its lifetime must outlast the
/// one transfer it feeds.
pub trait BodySource {
    fn pull(&mut self, max: usize) -> (r: ReadOutcome)
        ensures
            r matches ReadOutcome::Data(d) ==> d@.len() <= max,
    ;
}

} // verus!
