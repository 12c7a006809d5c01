//! Running under valgrind.
use vstd::prelude::*;

verus! {

/// Whether the process runs under valgrind. Telling needs a client request
/// that only a nightly compiler can issue, so the answer here is always that
/// it cannot be told.
pub fn is() -> (r: Result<bool, ()>)
    ensures
        r is Err,
{
    Err(())
}

/// The lowest descriptor that valgrind keeps for itself, from the hard limit
/// on open descriptors: valgrind takes the descriptors from that limit up, so
/// every descriptor of the program lies below it.
pub fn start_fd(hard_limit: u64) -> (r: i32)
    requires
        hard_limit < i32::MAX,
    ensures
        r as int == hard_limit as int,
{
    hard_limit as i32
}

} // verus!
