use vstd::prelude::*;

verus! {

/// Things that describe themselves in one line of the server's log.
pub trait Loggable {
    fn to_log_message(&self) -> String;
}

} // verus!
