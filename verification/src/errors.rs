//! Error results carrying a user-facing message.
use vstd::prelude::*;

verus! {

/// `r` is an error with exactly this message.
pub open spec fn is_err_with<T>(r: Result<T, String>, msg: Seq<char>) -> bool {
    r matches Err(e) && e@ == msg
}

/// `o` holds a text equal to `msg`.
pub open spec fn is_some_text(o: Option<String>, msg: Seq<char>) -> bool {
    o matches Some(m) && m@ == msg
}

} // verus!
