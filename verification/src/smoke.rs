//! The tally of the ABI smoke test: each check passes or fails, and the
//! failures are counted for the exit status.
use vstd::prelude::*;

verus! {

/// Counts a check's outcome, one more failure when it did not pass, and
/// gives the verdict to print after the check's label.
pub fn report(fails: &mut u32, ok: bool) -> (verdict: &'static str)
    requires
        !ok ==> *old(fails) < u32::MAX,
    ensures
        verdict@ == (if ok {
            " PASS\n"@
        } else {
            " FAIL\n"@
        }),
        *final(fails) == (if ok {
            *old(fails) as int
        } else {
            *old(fails) + 1
        }),
{
    if !ok {
        *fails = *fails + 1;
        " FAIL\n"
    } else {
        " PASS\n"
    }
}

} // verus!
