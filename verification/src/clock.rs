//! Today's date in the local time zone, through `chrono`.

use vstd::prelude::*;
use chrono::Datelike;

verus! {

/// `chrono::Local::now`, converted to its calendar date (year, month, day)
/// with `Datelike`. The result depends on the clock: only the ranges that
/// `Datelike::month` and `Datelike::day` document (1 to 12, 1 to 31) are
/// claimed.
#[verifier::external_body]
pub(crate) fn local_date() -> (r: (i32, u32, u32))
    ensures
        1 <= r.1 <= 12,
        1 <= r.2 <= 31,
{
    let now = chrono::Local::now();
    (now.year(), now.month(), now.day())
}

} // verus!
