use vstd::prelude::*;

verus! {

/// A monotonic instant supplied by a `Clock`, in nanoseconds (or any other
/// monotonic unit chosen by the clock). The domain treats it as an opaque,
/// ordered integer.
#[derive(Debug, Clone, Copy, PartialEq, Eq, Hash, PartialOrd, Ord)]
pub struct Timestamp(pub i64);

} // verus!
