use vstd::prelude::*;
use vstd::string::StrSliceExecFns;
use crate::game::player::PlayerID;

verus! {

/// An HTTP authentication token: every route that takes a `Claims` only
/// serves authenticated requests, on behalf of player `pid`.
#[derive(Debug, Clone, Copy, PartialEq, Eq, Structural)]
pub struct Claims {
    pub pid: PlayerID,
}

/// The last space-separated word of an `Authorization` header: the token of
/// `Bearer <token>`, or the whole header when it holds no space.
pub fn bearer_token(header: &str) -> (t: &str)
    ensures
        exists|k: int|
            0 <= k <= header@.len() && t@ == header@.subrange(k, header@.len() as int) && (k == 0
                || header@[k - 1] == ' '),
        forall|i: int| 0 <= i < t@.len() ==> t@[i] != ' ',
{
    let n = header.unicode_len();
    let mut i: usize = n;
    while i > 0
        invariant
            n == header@.len(),
            i <= n,
            forall|j: int| i <= j < n ==> header@[j] != ' ',
        ensures
            i <= n,
            forall|j: int| i <= j < n ==> header@[j] != ' ',
            i == 0 || header@[i - 1] == ' ',
        decreases i,
    {
        if header.get_char(i - 1) == ' ' {
            break;
        }
        i = i - 1;
    }
    let t = header.substring_char(i, n);
    assert(forall|j: int| 0 <= j < t@.len() ==> t@[j] == header@[i + j]);
    assert(0 <= i <= header@.len() && t@ == header@.subrange(i as int, header@.len() as int));
    t
}

} // verus!
