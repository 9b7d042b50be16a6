use vstd::prelude::*;

verus! {

/// Hit points the enemy ship starts with.
pub const ENEMY_MAX_HEALTH: i64 = 3000;

/// At or below this many hit points the enemy calls its first reinforcements.
pub const FIRST_WAVE_HEALTH: i64 = 2100;

/// At or below this many hit points the enemy calls its second reinforcements.
pub const SECOND_WAVE_HEALTH: i64 = 1200;

/// Which reinforcement checkpoints of the enemy have already fired.
#[derive(Clone, Copy, Debug, PartialEq, Eq, Structural)]
pub struct EnemyFlags {
    pub flag_2100_triggered: bool,
    pub flag_1200_triggered: bool,
}

impl Default for EnemyFlags {
    fn default() -> (r: Self)
        ensures
            !r.flag_2100_triggered,
            !r.flag_1200_triggered,
    {
        EnemyFlags { flag_2100_triggered: false, flag_1200_triggered: false }
    }
}

/// A wave of UFOs called in by the enemy.
#[derive(Clone, Copy, Debug, PartialEq, Eq, Structural)]
pub enum UfoWave {
    /// Two UFOs on a small ring around the enemy ship.
    Ring,
    /// Six UFOs in a rectangular formation, three on each side of the enemy ship.
    Flanks,
}

pub open spec fn wave_size(w: UfoWave) -> nat {
    match w {
        UfoWave::Ring => 2,
        UfoWave::Flanks => 6,
    }
}

impl UfoWave {
    /// How many UFOs the wave brings.
    pub fn ufo_count(&self) -> (r: usize)
        ensures
            r == wave_size(*self),
    {
        match self {
            UfoWave::Ring => 2,
            UfoWave::Flanks => 6,
        }
    }
}

/// What the enemy does on a health check.
#[derive(Clone, Copy, Debug, PartialEq, Eq, Structural)]
pub enum EnemyCheck {
    /// No hit points left: the enemy ship is removed.
    Destroyed,
    /// Still flying; `ring` and `flanks` tell which waves to call in now.
    Alive { ring: bool, flanks: bool },
}

/// The checkpoint rule: flags after the check, and what the enemy does.
pub open spec fn checkpoint(flags: EnemyFlags, hp: int) -> (EnemyFlags, EnemyCheck) {
    if hp <= 0 {
        (flags, EnemyCheck::Destroyed)
    } else {
        let ring = !flags.flag_2100_triggered && hp <= FIRST_WAVE_HEALTH;
        let flanks = !flags.flag_1200_triggered && hp <= SECOND_WAVE_HEALTH;
        (
            EnemyFlags {
                flag_2100_triggered: flags.flag_2100_triggered || ring,
                flag_1200_triggered: flags.flag_1200_triggered || flanks,
            },
            EnemyCheck::Alive { ring, flanks },
        )
    }
}

/// How many UFOs a check calls in.
pub open spec fn ufos_called(c: EnemyCheck) -> nat {
    match c {
        EnemyCheck::Destroyed => 0,
        EnemyCheck::Alive { ring, flanks } => (if ring { wave_size(UfoWave::Ring) } else { 0 })
            + (if flanks { wave_size(UfoWave::Flanks) } else { 0 }),
    }
}

/// Checks the enemy's health: with no hit points left it is destroyed;
/// otherwise each checkpoint not fired yet whose threshold has been reached
/// fires now, once, and calls in its wave.
pub fn check_enemy_health_flags(flags: &mut EnemyFlags, health: i64) -> (r: EnemyCheck)
    ensures
        (*final(flags), r) == checkpoint(*old(flags), health as int),
        (r == EnemyCheck::Destroyed) <==> health <= 0,
        0 < health <= FIRST_WAVE_HEALTH && !old(flags).flag_2100_triggered ==> (r matches EnemyCheck::Alive {
            ring,
            ..
        } && ring) && final(flags).flag_2100_triggered,
        0 < health <= SECOND_WAVE_HEALTH && !old(flags).flag_1200_triggered ==> (r matches EnemyCheck::Alive {
            flanks,
            ..
        } && flanks) && final(flags).flag_1200_triggered,
        (r matches EnemyCheck::Alive { ring, .. } && ring) ==> 0 < health <= FIRST_WAVE_HEALTH
            && !old(flags).flag_2100_triggered,
        (r matches EnemyCheck::Alive { flanks, .. } && flanks) ==> 0 < health <= SECOND_WAVE_HEALTH
            && !old(flags).flag_1200_triggered,
        old(flags).flag_2100_triggered ==> final(flags).flag_2100_triggered,
        old(flags).flag_1200_triggered ==> final(flags).flag_1200_triggered,
        health > FIRST_WAVE_HEALTH ==> *final(flags) == *old(flags),
{
    if health <= 0 {
        return EnemyCheck::Destroyed;
    }
    let ring = !flags.flag_2100_triggered && health <= FIRST_WAVE_HEALTH;
    if ring {
        flags.flag_2100_triggered = true;
    }
    let flanks = !flags.flag_1200_triggered && health <= SECOND_WAVE_HEALTH;
    if flanks {
        flags.flag_1200_triggered = true;
    }
    EnemyCheck::Alive { ring, flanks }
}

/// Where the six UFOs of the flank wave appear, relative to the enemy ship:
/// three on its left, three on its right.
pub open spec fn flank_formation() -> Seq<(i32, i32, i32)> {
    seq![(-45i32, 0i32, -20i32), (-25i32, 0i32, -20i32), (-5i32, 0i32, -20i32), (45i32, 0i32, 20i32), (25i32, 0i32, 20i32), (5i32, 0i32, 20i32)]
}

/// The offsets of the flank wave (see `flank_formation`).
pub fn flank_offsets() -> (r: Vec<(i32, i32, i32)>)
    ensures
        r@ == flank_formation(),
{
    let mut r: Vec<(i32, i32, i32)> = Vec::new();
    r.push((-45, 0, -20));
    r.push((-25, 0, -20));
    r.push((-5, 0, -20));
    r.push((45, 0, 20));
    r.push((25, 0, 20));
    r.push((5, 0, 20));
    assert(r@ =~= flank_formation());
    r
}


/// Where the enemy's four gun turrets sit on its hull.
pub open spec fn turret_layout() -> Seq<(i32, i32, i32)> {
    seq![(-3i32, 6i32, -10i32), (3i32, 6i32, -10i32), (-3i32, 6i32, 10i32), (3i32, 6i32, 10i32)]
}

/// The turret positions (see `turret_layout`); each fires one shot per volley.
pub fn turret_offsets() -> (r: Vec<(i32, i32, i32)>)
    ensures
        r@ == turret_layout(),
        r.len() == 4,
{
    let mut r: Vec<(i32, i32, i32)> = Vec::new();
    r.push((-3, 6, -10));
    r.push((3, 6, -10));
    r.push((-3, 6, 10));
    r.push((3, 6, 10));
    assert(r@ =~= turret_layout());
    r
}

/// Runs the checkpoint rule over a history of health readings, and counts
/// the UFOs called in along the way.
pub open spec fn run_checks(flags: EnemyFlags, history: Seq<int>) -> (EnemyFlags, nat)
    decreases history.len(),
{
    if history.len() == 0 {
        (flags, 0)
    } else {
        let (mid, n) = run_checks(flags, history.drop_last());
        let (after, c) = checkpoint(mid, history.last());
        (after, n + ufos_called(c))
    }
}

/// The UFOs still to come from checkpoints that have not fired.
pub open spec fn ufos_in_reserve(flags: EnemyFlags) -> nat {
    (if flags.flag_2100_triggered { 0nat } else { 2nat }) + (if flags.flag_1200_triggered {
        0nat
    } else {
        6nat
    })
}

/// Checkpoints never reset: a flag that is set stays set.
pub proof fn lemma_flags_only_rise(flags: EnemyFlags, hp: int)
    ensures
        flags.flag_2100_triggered ==> checkpoint(flags, hp).0.flag_2100_triggered,
        flags.flag_1200_triggered ==> checkpoint(flags, hp).0.flag_1200_triggered,
{
}

/// A wave is called in at most once: calling it sets its flag, and with the
/// flag set it is not called again.
pub proof fn lemma_wave_called_once(flags: EnemyFlags, hp1: int, hp2: int)
    ensures
        ({
            let (mid, c1) = checkpoint(flags, hp1);
            let (_, c2) = checkpoint(mid, hp2);
            &&& (c1 matches EnemyCheck::Alive { ring, .. } && ring) ==> !(c2 matches EnemyCheck::Alive {
                ring,
                ..
            } && ring)
            &&& (c1 matches EnemyCheck::Alive { flanks, .. } && flanks) ==> !(
            c2 matches EnemyCheck::Alive { flanks, .. } && flanks)
        }),
{
}

/// Over any history of health readings, the UFOs called in plus those still
/// in reserve make up exactly the reserve at the start; so a fresh enemy calls
/// in at most eight UFOs in all.
pub proof fn lemma_ufo_total_bounded(flags: EnemyFlags, history: Seq<int>)
    ensures
        run_checks(flags, history).1 + ufos_in_reserve(run_checks(flags, history).0) == ufos_in_reserve(
            flags,
        ),
        run_checks(flags, history).1 <= 8,
    decreases history.len(),
{
    if history.len() > 0 {
        lemma_ufo_total_bounded(flags, history.drop_last());
    }
}


/// The waves are called exactly at their thresholds: the ring wave the first
/// time a living enemy is at or below `FIRST_WAVE_HEALTH`, the flank wave the
/// first time it is at or below `SECOND_WAVE_HEALTH`, whatever the health was
/// before; a destroyed enemy calls none.
pub proof fn lemma_waves_called_at_thresholds(flags: EnemyFlags, hp: int)
    ensures
        0 < hp <= FIRST_WAVE_HEALTH && !flags.flag_2100_triggered ==> (checkpoint(flags, hp).1 matches EnemyCheck::Alive {
            ring,
            ..
        } && ring),
        0 < hp <= SECOND_WAVE_HEALTH && !flags.flag_1200_triggered ==> (checkpoint(flags, hp).1 matches EnemyCheck::Alive {
            flanks,
            ..
        } && flanks),
        (checkpoint(flags, hp).1 matches EnemyCheck::Alive { ring, .. } && ring) ==> 0 < hp <= FIRST_WAVE_HEALTH
            && !flags.flag_2100_triggered,
        (checkpoint(flags, hp).1 matches EnemyCheck::Alive { flanks, .. } && flanks) ==> 0 < hp
            <= SECOND_WAVE_HEALTH && !flags.flag_1200_triggered,
        hp <= 0 <==> checkpoint(flags, hp).1 == EnemyCheck::Destroyed,
{
}

/// A single blow that takes a fresh enemy from full health to the second
/// threshold or below, without destroying it, calls in both waves at once.
pub proof fn lemma_deep_hit_calls_both(hp: int)
    requires
        0 < hp <= SECOND_WAVE_HEALTH,
    ensures
        checkpoint(EnemyFlags { flag_2100_triggered: false, flag_1200_triggered: false }, hp).1
            == (EnemyCheck::Alive { ring: true, flanks: true }),
{
}

/// The flank formation puts three UFOs on each side of the enemy ship.
pub proof fn lemma_flanks_three_each_side()
    ensures
        flank_formation().len() == 6,
        forall|i: int| 0 <= i < 3 ==> (#[trigger] flank_formation()[i]).0 < 0,
        forall|i: int| 3 <= i < 6 ==> (#[trigger] flank_formation()[i]).0 > 0,
{
}

} // verus!
