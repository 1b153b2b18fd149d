//! Random parameter draws: a team, a single season, or a season range.
//!
//! Everything random funnels through one trusted call into the `rand`
//! crate; the derived draws are verified against its contract.

use vstd::prelude::*;

use crate::teams::{team_codes, team_list, END_YEAR, START_YEAR};

verus! {

/// Relies on `rand::Rng::gen_range` over the thread-local generator: a
/// sample of `0..n` lies below `n` (the range must be nonempty).
#[verifier::external_body]
pub(crate) fn rand_below(n: u64) -> (r: u64)
    requires
        n > 0,
    ensures
        r < n,
{
    rand::Rng::gen_range(&mut rand::thread_rng(), 0..n)
}

/// A season drawn from `START_YEAR ..= END_YEAR`.
pub fn random_year() -> (y: i32)
    ensures
        START_YEAR <= y <= END_YEAR,
{
    let span = (END_YEAR - START_YEAR + 1) as u64;
    let off = rand_below(span);
    START_YEAR + (off as i32)
}

/// A season range drawn from the dataset: the start is uniform in
/// `START_YEAR .. END_YEAR`, the end uniform in `start + 1 ..= END_YEAR`,
/// so the range always spans at least two seasons.
pub fn random_year_range() -> (r: (i32, i32))
    ensures
        START_YEAR <= r.0,
        r.1 <= END_YEAR,
        r.0 + 1 <= r.1,
{
    let s = START_YEAR + (rand_below((END_YEAR - START_YEAR) as u64) as i32);
    let e = s + 1 + (rand_below((END_YEAR - s) as u64) as i32);
    (s, e)
}

/// A team drawn from the fixed 32-entry list.
pub fn random_team() -> (t: &'static str)
    ensures
        team_codes().contains(t@),
{
    let teams = team_list();
    let idx = rand_below(teams.len() as u64) as usize;
    let t = teams[idx];
    proof {
        assert(t@ == team_codes()[idx as int]);
    }
    t
}

} // verus!
