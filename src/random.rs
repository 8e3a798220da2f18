use vstd::prelude::*;
use rand::Rng;
use crate::constants::{FORWARD_ODDS, SHOOTING_ERROR};

verus! {

/// Relies on `rand::thread_rng` and `rand::Rng::gen_range` (an exclusive
/// range of `u64`): the value drawn lies in `lo..hi`. `gen_range` panics on an
/// empty range, hence `lo < hi`.
#[verifier::external_body]
fn random_range(lo: u64, hi: u64) -> (r: u64)
    requires
        lo < hi,
    ensures
        lo <= r < hi,
{
    rand::thread_rng().gen_range(lo..hi)
}

/// A random coordinate in `[0, limit]`: `0` on an empty range, else drawn from `[0, limit)`.
pub fn random_coord(limit: i64) -> (r: i64)
    requires
        0 <= limit,
    ensures
        0 <= r <= limit,
        limit == 0 ==> r == 0,
        limit > 0 ==> r < limit,
{
    if limit == 0 {
        0
    } else {
        random_range(0, limit as u64) as i64
    }
}

/// The aim error given by `draw`, a draw from `[0, 2 * SHOOTING_ERROR]`: the
/// draws map one to one onto `[-SHOOTING_ERROR, SHOOTING_ERROR]`.
pub fn aim_error_of(draw: u64) -> (r: i64)
    requires
        draw <= 2 * SHOOTING_ERROR,
    ensures
        r == draw - SHOOTING_ERROR,
        -SHOOTING_ERROR <= r <= SHOOTING_ERROR,
{
    draw as i64 - SHOOTING_ERROR
}

/// The sine of a random aim error, scaled by `HEADING_SCALE`, drawn uniformly
/// from `[-SHOOTING_ERROR, SHOOTING_ERROR]`.
pub fn random_aim_error() -> (r: i64)
    ensures
        exists|draw: u64| draw <= 2 * SHOOTING_ERROR && r == aim_error_of_spec(draw as int),
        -SHOOTING_ERROR <= r <= SHOOTING_ERROR,
{
    let draw = random_range(0, 2 * SHOOTING_ERROR as u64 + 1);
    let r = aim_error_of(draw);
    assert(r == aim_error_of_spec(draw as int));
    r
}

/// The aim error given by a draw.
pub open spec fn aim_error_of_spec(draw: int) -> int {
    draw - SHOOTING_ERROR
}

/// Whether a new enemy is forward-capable, given `draw`, a draw from
/// `[0, FORWARD_ODDS)`: exactly one of the `FORWARD_ODDS` draws grants it.
pub open spec fn forward_of_spec(draw: int) -> bool {
    draw == 0
}

/// Whether a new enemy is forward-capable, given `draw`, a draw from
/// `[0, FORWARD_ODDS)`: exactly one of the `FORWARD_ODDS` draws grants it.
pub fn forward_of(draw: u64) -> (r: bool)
    requires
        draw < FORWARD_ODDS,
    ensures
        r == forward_of_spec(draw as int),
{
    draw == 0
}

/// True with one chance in `FORWARD_ODDS`: the flag given by a uniform draw
/// from `[0, FORWARD_ODDS)`.
pub fn random_forward() -> (r: bool)
    ensures
        exists|draw: u64| draw < FORWARD_ODDS && r == forward_of_spec(draw as int),
{
    let draw = random_range(0, FORWARD_ODDS);
    forward_of(draw)
}

} // verus!
