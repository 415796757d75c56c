use vstd::prelude::*;
use rand::Rng;
use std::io::Write;

verus! {

/// Relies on rand's `thread_rng().gen_range` over a half-open `i64` range:
/// the sample lies in `[lo, hi)`. `gen_range` panics on an empty range, so
/// the range is required to be nonempty.
#[verifier::external_body]
pub(crate) fn rand_in_range(lo: i64, hi: i64) -> (r: i64)
    requires
        lo < hi,
    ensures
        lo <= r < hi,
{
    rand::thread_rng().gen_range(lo..hi)
}

/// Relies on std::io::Stdout::write_fmt (through `writeln`) for the
/// best-effort collision diagnostic; a failed write is ignored.
#[verifier::external_body]
pub(crate) fn log_collision(px: u64, millis: u64) {
    let _ = writeln!(std::io::stdout(), "collision at distance: {}.{:03}", px, millis);
}

} // verus!
