//! How an executable result relates to the result that a model prescribes.

use vstd::prelude::*;

verus! {

/// `r` is the result `s`: the same value, or an error with the same message.
pub open spec fn same_result<T>(r: Result<T, &'static str>, s: Result<T, Seq<char>>) -> bool {
    match (r, s) {
        (Ok(a), Ok(b)) => a == b,
        (Err(e), Err(m)) => e@ == m,
        _ => false,
    }
}

} // verus!
