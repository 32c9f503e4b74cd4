use vstd::prelude::*;

verus! {

/// Readiness of one polled half of the duplex, as the event loop sees it.
#[derive(Clone, Copy, Debug, PartialEq, Eq, Structural)]
pub enum Async {
    Ready,
    NotReady,
}

/// A failure of the reader or the writer half.
#[derive(Debug)]
pub enum NetworkError {
    /// An unrecoverable transport or channel failure, with its report.
    FatalError(String),
    /// The transport signalled end-of-stream: the connection must be rebuilt.
    RebuildRequired,
}

} // verus!
