use vstd::prelude::*;

use crate::components::Enemies;
use crate::random::random_ratio;

verus! {

/// Lifetime of an enemy on floor `floor`, in seconds.
pub fn get_enemy_time(floor: u32) -> (r: u64)
    ensures
        r == floor as int * 5 + 25,
{
    (floor as u64) * 5 + 25
}

/// Walking speed of an enemy on floor `floor`, in sub-units per tick: two
/// units, plus three tenths of a unit for each floor past the fifth.
pub fn get_enemy_speed(floor: u32) -> (r: i64)
    ensures
        r == (if floor > 5 { 2000 + (floor - 5) * 300 } else { 2000 }),
{
    if floor > 5 {
        2000 + ((floor - 5) as i64) * 300
    } else {
        2000
    }
}

/// Time cost of a power-up on floor `floor`, in seconds.
pub fn get_powerup_cost(floor: u32) -> (r: u64)
    ensures
        r == 5 * (floor / 5) as int + 10,
{
    5 * (floor / 5) as u64 + 10
}

/// Speed of enemy bullets on floor `floor`, in sub-units per tick.
pub fn get_enemy_bullet_speed(floor: u32) -> (r: i64)
    ensures
        r == (floor / 3 + 3) as int * 1000,
{
    ((floor / 3) as i64 + 3) * 1000
}

/// The fewest enemies a room on floor `floor` holds.
pub open spec fn min_roster(floor: u32) -> int {
    floor / 2 + 1
}

pub open spec fn roster_size_spec(floor: u32, sample: u64) -> int {
    if sample >= min_roster(floor) { sample as int } else { min_roster(floor) }
}

/// Number of enemies of a room on floor `floor`, given the Poisson draw
/// `sample`: the draw, but never fewer than `floor / 2 + 1`.
pub fn roster_size(floor: u32, sample: u64) -> (r: u64)
    ensures
        r == roster_size_spec(floor, sample),
        r >= min_roster(floor),
{
    let least: u64 = (floor / 2) as u64 + 1;
    if sample >= least {
        sample
    } else {
        least
    }
}

/// The roster size never falls below the floor's lower bound, and that bound
/// never falls from one floor to the next.
pub proof fn lemma_roster_lower_bound(f: u32, sample: u64)
    requires
        f < u32::MAX,
    ensures
        roster_size_spec((f + 1) as u32, sample) >= (f + 1) / 2 + 1,
        min_roster(f) <= min_roster((f + 1) as u32),
{
}

/// Chance, out of `VARIANT_DEN`, of each of the two variant coin flips.
pub const VARIANT_NUM: u32 = 7;

pub const VARIANT_DEN: u32 = 20;

pub open spec fn variant_spec(first: bool, second: bool) -> Enemies {
    if first {
        Enemies::Stationary
    } else if second {
        Enemies::NoShoot
    } else {
        Enemies::Full
    }
}

/// The variant chosen by the two coin flips: the first makes a stationary
/// shooter; failing that, the second makes a chaser that never shoots;
/// failing both, a chaser that shoots.
pub fn enemy_variant(first: bool, second: bool) -> (r: Enemies)
    ensures
        r == variant_spec(first, second),
{
    if first {
        Enemies::Stationary
    } else if second {
        Enemies::NoShoot
    } else {
        Enemies::Full
    }
}

/// Rolls the roster of a room on floor `floor`, given the Poisson draw
/// `sample` of its size: each enemy's variant comes from two independent
/// 35% coin flips, the second flipped only when the first fails.
pub fn gen_enemy_list(floor: u32, sample: u64) -> (r: Vec<Enemies>)
    requires
        sample <= usize::MAX,
    ensures
        r@.len() == roster_size_spec(floor, sample),
        r@.len() >= floor / 2 + 1,
{
    let num_enemies = roster_size(floor, sample);
    proof {
        assert(num_enemies <= usize::MAX) by {
            assert(floor / 2 + 1 <= u32::MAX);
        }
    }
    let mut out: Vec<Enemies> = Vec::new();
    let mut i: u64 = 0;
    while i < num_enemies
        invariant
            i <= num_enemies,
            out@.len() == i,
        decreases num_enemies - i,
    {
        let first = random_ratio(VARIANT_NUM, VARIANT_DEN);
        let second = if first {
            false
        } else {
            random_ratio(VARIANT_NUM, VARIANT_DEN)
        };
        out.push(enemy_variant(first, second));
        i = i + 1;
    }
    out
}

} // verus!
