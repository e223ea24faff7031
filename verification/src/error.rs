use vstd::prelude::*;

verus! {

/// Why a store or lead operation could not be carried out.
///
/// Every failure reflects bad input: nothing here is worth retrying.
#[derive(Clone, Copy, Debug, PartialEq, Eq, Structural)]
pub enum Error {
    /// The company is unknown, or a task index points past the end of its
    /// todo/wait list.
    NotFound,
    /// The company holds this many positions and no index was given to pick
    /// one of them.
    Ambiguous(usize),
    /// The company holds only `.0` positions, so the supplied index `.1`
    /// does not name one.
    OutOfRange(usize, usize),
}

} // verus!
