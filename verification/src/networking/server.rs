use vstd::prelude::*;
use crate::networking::error::{Async, NetworkError};

verus! {

/// Folds one half's verdict into the supervisor's: an orderly end-of-stream
/// asks for a rebuild and counts as that half being finished; only a fatal
/// error is passed through as an error.
pub fn map_result(result: Result<Async, NetworkError>) -> (r: Result<Async, String>)
    ensures
        match result {
            Ok(a) => r == Ok::<Async, String>(a),
            Err(NetworkError::RebuildRequired) => r == Ok::<Async, String>(Async::Ready),
            Err(NetworkError::FatalError(msg)) => r matches Err(m) && m == msg,
        },
{
    match result {
        Ok(a) => Ok(a),
        Err(NetworkError::RebuildRequired) => Ok(Async::Ready),
        Err(NetworkError::FatalError(msg)) => Err(msg),
    }
}

/// Joins the two halves' verdicts: the reader's error wins over the
/// writer's, and the pair is ready as soon as either half is.
pub fn join_result(lhs: Result<Async, String>, rhs: Result<Async, String>) -> (r: Result<
    Async,
    String,
>)
    ensures
        lhs is Err ==> r == lhs,
        lhs is Ok && rhs is Err ==> r == rhs,
        match (lhs, rhs) {
            (Ok(a), Ok(b)) => r == Ok::<Async, String>(
                if a is Ready || b is Ready {
                    Async::Ready
                } else {
                    Async::NotReady
                },
            ),
            _ => true,
        },
{
    match lhs {
        Err(e) => Err(e),
        Ok(a) => match rhs {
            Err(e) => Err(e),
            Ok(b) => {
                if matches!(a, Async::Ready) || matches!(b, Async::Ready) {
                    Ok(Async::Ready)
                } else {
                    Ok(Async::NotReady)
                }
            },
        },
    }
}

} // verus!
