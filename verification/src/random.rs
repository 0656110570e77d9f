use vstd::prelude::*;

verus! {

/// Relies on rand::random_range: a draw from the thread-local generator,
/// uniform over `[0, n)`; the range is non-empty, so the call cannot panic.
#[verifier::external_body]
pub(crate) fn random_below(n: u64) -> (r: u64)
    requires
        n >= 1,
    ensures
        r < n,
{
    rand::random_range(0..n)
}

/// A draw uniform over `[lo, hi)`, as fixed-point canvas units.
pub(crate) fn random_range_i64(lo: i64, hi: i64) -> (r: i64)
    requires
        0 <= lo < hi,
    ensures
        lo <= r < hi,
{
    let span: u64 = (hi - lo) as u64;
    let d: u64 = random_below(span);
    lo + (d as i64)
}

} // verus!
