use vstd::prelude::*;

use crate::anchor::Anchor;

verus! {

/// The outcome of loading: the ledger state container, the leader schedule and the
/// verified anchor, or the replay error.
pub type LoadResult<B, L, E> = Result<(B, L, Option<Anchor>), E>;

/// Attaches `anchor` to a successful replay result; a replay error passes through.
pub fn to_loadresult<B, L, E>(bpr: Result<(B, L), E>, anchor: Option<Anchor>) -> (r: LoadResult<B, L, E>)
    ensures
        match bpr {
            Ok((bank_forks, leader_schedule)) => r == Ok::<(B, L, Option<Anchor>), E>((bank_forks, leader_schedule, anchor)),
            Err(e) => r == Err::<(B, L, Option<Anchor>), E>(e),
        },
{
    match bpr {
        Ok((bank_forks, leader_schedule)) => Ok((bank_forks, leader_schedule, anchor)),
        Err(e) => Err(e),
    }
}

} // verus!
