use vstd::prelude::*;

verus! {

/// Hit points of a ship (player, enemy or UFO). They may go below zero.
#[derive(Clone, Copy, Debug, PartialEq, Eq, Structural)]
pub struct Health(pub i64);

/// Hit points of an asteroid or an asteroid fragment.
#[derive(Clone, Copy, Debug, PartialEq, Eq, Structural)]
pub struct AsteroidHealth(pub i64);

/// `hp - total`, held at the floor of `i64` (hit points never wrap around).
pub open spec fn damaged(hp: int, total: int) -> int {
    if hp - total < i64::MIN { i64::MIN as int } else { hp - total }
}

/// A unit whose hit points are at or below zero is destroyed.
pub open spec fn spec_destroyed(hp: int) -> bool {
    hp <= 0
}

/// What an asteroid keeps after bumping into another asteroid: the collision
/// takes `base` hit points, but never more than the asteroid has left.
pub open spec fn after_bump(hp: int, base: int) -> int {
    if hp <= base { 0 } else { hp - base }
}

/// Removes `dmg` hit points.
pub fn take_damage(hp: i64, dmg: u32) -> (r: i64)
    ensures
        r == damaged(hp as int, dmg as int),
        hp - dmg >= i64::MIN ==> r == hp - dmg,
        hp - dmg < i64::MIN ==> r == i64::MIN,
{
    if hp < i64::MIN + (dmg as i64) {
        i64::MIN
    } else {
        hp - (dmg as i64)
    }
}

/// Removes `dmg` hit points `times` times over.
pub fn take_repeated_damage(hp: i64, dmg: u32, times: u64) -> (r: i64)
    ensures
        r == damaged(hp as int, dmg * times),
        hp - dmg * times >= i64::MIN ==> r == hp - dmg * times,
        r <= hp,
{
    let mut cur = hp;
    let mut i: u64 = 0;
    while i < times
        invariant
            i <= times,
            cur == damaged(hp as int, dmg * i),
        decreases times - i,
    {
        proof {
            lemma_damage_adds(hp as int, dmg * i, dmg as int);
            assert(dmg * (i + 1) == dmg * i + dmg) by (nonlinear_arith);
        }
        cur = take_damage(cur, dmg);
        i = i + 1;
    }
    proof {
        assert(dmg * times >= 0) by (nonlinear_arith);
    }
    cur
}

/// Whether a unit with these hit points is destroyed.
pub fn is_destroyed(hp: i64) -> (r: bool)
    ensures
        r == spec_destroyed(hp as int),
        r <==> hp <= 0,
{
    hp <= 0
}

/// Hit points left to an asteroid after an asteroid-asteroid collision
/// of strength `base`.
pub fn bump(hp: i64, base: u32) -> (r: i64)
    ensures
        r == after_bump(hp as int, base as int),
        hp <= base ==> r == 0,
        hp > base ==> r == hp - base,
{
    if hp <= base as i64 {
        0
    } else {
        hp - base as i64
    }
}

/// Two doses of damage taken one after the other weigh as one dose of their sum.
pub proof fn lemma_damage_adds(hp: int, a: int, b: int)
    requires
        i64::MIN <= hp <= i64::MAX,
        a >= 0,
        b >= 0,
    ensures
        damaged(damaged(hp, a), b) == damaged(hp, a + b),
{
}

/// Damage never raises hit points, and stops at the floor of `i64`.
pub proof fn lemma_damage_never_heals(hp: int, total: int)
    requires
        i64::MIN <= hp <= i64::MAX,
        total >= 0,
    ensures
        damaged(hp, total) <= hp,
        i64::MIN <= damaged(hp, total),
{
}

/// An asteroid that had hit points left still has some, or none, after a
/// collision, never a negative amount; and it loses at most `base`.
pub proof fn lemma_bump_never_negative(hp: int, base: int)
    requires
        base >= 0,
    ensures
        after_bump(hp, base) >= 0,
        hp >= 0 ==> hp - base <= after_bump(hp, base) <= hp,
{
}


/// The meaning of the damage and destruction rules, in plain arithmetic:
/// damage subtracts exactly (down to the floor of `i64`), a unit is destroyed
/// exactly at zero hit points or below, and a bump takes `base` or, when less
/// is left, all of it.
pub proof fn lemma_rules_in_arithmetic(hp: int, total: int, base: int)
    requires
        i64::MIN <= hp <= i64::MAX,
        total >= 0,
        base >= 0,
    ensures
        hp - total >= i64::MIN ==> damaged(hp, total) == hp - total,
        spec_destroyed(hp) <==> hp <= 0,
        after_bump(hp, base) == (if hp <= base { 0 } else { hp - base }),
        after_bump(hp, base) >= 0,
{
}

} // verus!
