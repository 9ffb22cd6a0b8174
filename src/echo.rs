//! The decisions of an echo session: what to do after each read.
use vstd::prelude::*;

verus! {

/// What an echo session does after a read.
#[derive(Clone, Copy, Debug, PartialEq, Eq, Structural)]
pub enum EchoStep {
    /// Write back the first `n` bytes read, then read again.
    Echo(usize),
    /// The peer finished sending: end the session.
    Finish,
    /// The read failed: shut the connection down and end the session.
    Abort,
}

/// The next step after a read that gave `read`: the number of bytes read, or
/// `None` when the read failed.
pub fn next_step(read: Option<usize>) -> (r: EchoStep)
    ensures
        read is Some && read->0 > 0 ==> r == EchoStep::Echo(read->0),
        read == Some(0usize) ==> r == EchoStep::Finish,
        read is None ==> r == EchoStep::Abort,
{
    match read {
        Some(size) => if size > 0 {
            EchoStep::Echo(size)
        } else {
            EchoStep::Finish
        },
        None => EchoStep::Abort,
    }
}

} // verus!
