use vstd::prelude::*;
use crate::health::{damaged, after_bump, take_repeated_damage, bump, spec_destroyed};

verus! {

/// The start of a contact between two colliders, as the physics engine
/// reports it: the two collider entities, and the rigid bodies they belong to.
#[derive(Clone, Copy, Debug, PartialEq, Eq)]
pub struct ContactEvent {
    pub collider1: u64,
    pub collider2: u64,
    pub body1: Option<u64>,
    pub body2: Option<u64>,
}

/// A laser that struck a unit: `(laser, target)`.
pub type Strike = (u64, u64);

/// The ids of a list of units with hit points.
pub open spec fn ids_of(units: Seq<(u64, i64)>) -> Seq<u64> {
    units.map_values(|u: (u64, i64)| u.0)
}

/// The body on the far side of a contact, seen from the group `side`:
/// when `side` holds the first collider, the second body; otherwise, when it
/// holds the second collider, the first body; otherwise none.
pub open spec fn far_body(e: ContactEvent, side: Seq<u64>) -> Option<u64> {
    if side.contains(e.collider1) {
        e.body2
    } else if side.contains(e.collider2) {
        e.body1
    } else {
        None
    }
}

/// A member of `side` touched a body of `other` in this contact.
pub open spec fn touches(e: ContactEvent, side: Seq<u64>, other: Seq<u64>) -> bool {
    match far_body(e, side) {
        Some(b) => other.contains(b),
        None => false,
    }
}

/// How many contacts of `evs` are touches of `side` on `other`.
pub open spec fn count_touches(evs: Seq<ContactEvent>, side: Seq<u64>, other: Seq<u64>) -> nat
    decreases evs.len(),
{
    if evs.len() == 0 {
        0
    } else {
        count_touches(evs.drop_last(), side, other) + if touches(evs.last(), side, other) {
            1nat
        } else {
            0nat
        }
    }
}

/// A contact between two colliders, one in `a` and the other in `b`.
pub open spec fn colliders_meet(e: ContactEvent, a: Seq<u64>, b: Seq<u64>) -> bool {
    (a.contains(e.collider1) && b.contains(e.collider2)) || (a.contains(e.collider2) && b.contains(
        e.collider1,
    ))
}

/// The strike a contact stands for, with lasers and targets told apart by
/// their colliders: the first collider is tried as the laser first.
pub open spec fn collider_strike(e: ContactEvent, lasers: Seq<u64>, targets: Seq<u64>) -> Option<Strike> {
    if lasers.contains(e.collider1) && targets.contains(e.collider2) {
        Some((e.collider1, e.collider2))
    } else if lasers.contains(e.collider2) && targets.contains(e.collider1) {
        Some((e.collider2, e.collider1))
    } else {
        None
    }
}

/// The strike a contact stands for, with the target found by its body:
/// the laser is the collider that is a laser (the first one tried first), and
/// the target is the body on the other side, when that body is a target.
pub open spec fn body_strike(e: ContactEvent, lasers: Seq<u64>, targets: Seq<u64>) -> Option<Strike> {
    let laser = if lasers.contains(e.collider1) { e.collider1 } else { e.collider2 };
    match far_body(e, lasers) {
        Some(b) => if targets.contains(b) { Some((laser, b)) } else { None },
        None => None,
    }
}

/// The strikes, in contact order, that contacts stand for by their colliders.
pub open spec fn collider_strikes(evs: Seq<ContactEvent>, lasers: Seq<u64>, targets: Seq<u64>) -> Seq<Strike>
    decreases evs.len(),
{
    if evs.len() == 0 {
        Seq::empty()
    } else {
        let prev = collider_strikes(evs.drop_last(), lasers, targets);
        match collider_strike(evs.last(), lasers, targets) {
            Some(s) => prev.push(s),
            None => prev,
        }
    }
}

/// The strikes, in contact order, that contacts stand for by their bodies.
pub open spec fn body_strikes(evs: Seq<ContactEvent>, lasers: Seq<u64>, targets: Seq<u64>) -> Seq<Strike>
    decreases evs.len(),
{
    if evs.len() == 0 {
        Seq::empty()
    } else {
        let prev = body_strikes(evs.drop_last(), lasers, targets);
        match body_strike(evs.last(), lasers, targets) {
            Some(s) => prev.push(s),
            None => prev,
        }
    }
}

/// How many strikes landed on `id`.
pub open spec fn hits_on(id: u64, strikes: Seq<Strike>) -> nat
    decreases strikes.len(),
{
    if strikes.len() == 0 {
        0
    } else {
        hits_on(id, strikes.drop_last()) + if strikes.last().1 == id {
            1nat
        } else {
            0nat
        }
    }
}

/// Whether `id` is in `ids`.
pub fn contains_id(ids: &Vec<u64>, id: u64) -> (r: bool)
    ensures
        r == ids@.contains(id),
{
    let mut i: usize = 0;
    while i < ids.len()
        invariant
            i <= ids.len(),
            forall|j: int| 0 <= j < i ==> ids@[j] != id,
        decreases ids.len() - i,
    {
        if ids[i] == id {
            return true;
        }
        i = i + 1;
    }
    false
}

/// The ids of a list of units, in order.
pub fn unit_ids(units: &Vec<(u64, i64)>) -> (r: Vec<u64>)
    ensures
        r@ == ids_of(units@),
{
    let mut r: Vec<u64> = Vec::new();
    let mut i: usize = 0;
    while i < units.len()
        invariant
            i <= units.len(),
            r@ == ids_of(units@.take(i as int)),
        decreases units.len() - i,
    {
        r.push(units[i].0);
        i = i + 1;
        assert(ids_of(units@.take(i as int)) =~= ids_of(units@.take(i - 1)).push(units@[i - 1].0));
    }
    assert(units@.take(units.len() as int) =~= units@);
    r
}

fn far_body_of(e: &ContactEvent, side: &Vec<u64>) -> (r: Option<u64>)
    ensures
        r == far_body(*e, side@),
{
    if contains_id(side, e.collider1) {
        e.body2
    } else if contains_id(side, e.collider2) {
        e.body1
    } else {
        None
    }
}

fn touches_of(e: &ContactEvent, side: &Vec<u64>, other: &Vec<u64>) -> (r: bool)
    ensures
        r == touches(*e, side@, other@),
{
    match far_body_of(e, side) {
        Some(b) => contains_id(other, b),
        None => false,
    }
}

/// The player crashed into an asteroid: some contact has a player collider on
/// one side and an asteroid body on the other. Such a crash ends the game.
pub fn player_hits_asteroid(events: &Vec<ContactEvent>, players: &Vec<u64>, asteroids: &Vec<u64>) -> (r: bool)
    ensures
        r == exists|i: int| 0 <= i < events.len() && touches(#[trigger] events@[i], players@, asteroids@),
        forall|i: int|
            0 <= i < events.len() && players@.contains((#[trigger] events@[i]).collider1) && events@[i].body2
                is Some && asteroids@.contains(events@[i].body2->0) ==> r,
        forall|i: int|
            0 <= i < events.len() && !players@.contains((#[trigger] events@[i]).collider1) && players@.contains(
                events@[i].collider2,
            ) && events@[i].body1 is Some && asteroids@.contains(events@[i].body1->0) ==> r,
{
    let mut i: usize = 0;
    while i < events.len()
        invariant
            i <= events.len(),
            forall|j: int| 0 <= j < i ==> !touches(#[trigger] events@[j], players@, asteroids@),
        decreases events.len() - i,
    {
        if touches_of(&events[i], players, asteroids) {
            return true;
        }
        i = i + 1;
    }
    false
}

/// The player rammed a UFO: some contact joins a player collider and a UFO
/// collider. Such a crash ends the game.
pub fn player_hits_ufo(events: &Vec<ContactEvent>, players: &Vec<u64>, ufos: &Vec<u64>) -> (r: bool)
    ensures
        r == exists|i: int| 0 <= i < events.len() && colliders_meet(#[trigger] events@[i], players@, ufos@),
        forall|i: int|
            0 <= i < events.len() && ((players@.contains((#[trigger] events@[i]).collider1) && ufos@.contains(
                events@[i].collider2,
            )) || (players@.contains(events@[i].collider2) && ufos@.contains(events@[i].collider1))) ==> r,
        r ==> exists|i: int|
            0 <= i < events.len() && ((players@.contains((#[trigger] events@[i]).collider1) && ufos@.contains(
                events@[i].collider2,
            )) || (players@.contains(events@[i].collider2) && ufos@.contains(events@[i].collider1))),
{
    let mut i: usize = 0;
    while i < events.len()
        invariant
            i <= events.len(),
            forall|j: int| 0 <= j < i ==> !colliders_meet(#[trigger] events@[j], players@, ufos@),
        decreases events.len() - i,
    {
        let e = &events[i];
        let p1 = contains_id(players, e.collider1);
        let u2 = contains_id(ufos, e.collider2);
        let p2 = contains_id(players, e.collider2);
        let u1 = contains_id(ufos, e.collider1);
        if (p1 && u2) || (p2 && u1) {
            return true;
        }
        i = i + 1;
    }
    false
}

/// How many contacts are touches of `side` on `other`.
pub fn touch_count(events: &Vec<ContactEvent>, side: &Vec<u64>, other: &Vec<u64>) -> (r: u64)
    ensures
        r == count_touches(events@, side@, other@),
{
    let mut n: u64 = 0;
    let mut i: usize = 0;
    while i < events.len()
        invariant
            i <= events.len(),
            n == count_touches(events@.take(i as int), side@, other@),
            n <= i,
        decreases events.len() - i,
    {
        assert(events@.take(i + 1).drop_last() =~= events@.take(i as int));
        if touches_of(&events[i], side, other) {
            n = n + 1;
        }
        i = i + 1;
    }
    assert(events@.take(events.len() as int) =~= events@);
    n
}


fn collider_strike_of(e: &ContactEvent, lasers: &Vec<u64>, targets: &Vec<u64>) -> (r: Option<Strike>)
    ensures
        r == collider_strike(*e, lasers@, targets@),
{
    if contains_id(lasers, e.collider1) && contains_id(targets, e.collider2) {
        Some((e.collider1, e.collider2))
    } else if contains_id(lasers, e.collider2) && contains_id(targets, e.collider1) {
        Some((e.collider2, e.collider1))
    } else {
        None
    }
}

fn body_strike_of(e: &ContactEvent, lasers: &Vec<u64>, targets: &Vec<u64>) -> (r: Option<Strike>)
    ensures
        r == body_strike(*e, lasers@, targets@),
{
    let laser = if contains_id(lasers, e.collider1) { e.collider1 } else { e.collider2 };
    match far_body_of(e, lasers) {
        Some(b) => if contains_id(targets, b) { Some((laser, b)) } else { None },
        None => None,
    }
}

/// The strikes, in contact order, of lasers on targets, both told apart by
/// their colliders.
pub fn strikes_by_collider(events: &Vec<ContactEvent>, lasers: &Vec<u64>, targets: &Vec<u64>) -> (r: Vec<Strike>)
    ensures
        r@ == collider_strikes(events@, lasers@, targets@),
{
    let mut r: Vec<Strike> = Vec::new();
    let mut i: usize = 0;
    while i < events.len()
        invariant
            i <= events.len(),
            r@ == collider_strikes(events@.take(i as int), lasers@, targets@),
        decreases events.len() - i,
    {
        assert(events@.take(i + 1).drop_last() =~= events@.take(i as int));
        match collider_strike_of(&events[i], lasers, targets) {
            Some(s) => r.push(s),
            None => {},
        }
        i = i + 1;
    }
    assert(events@.take(events.len() as int) =~= events@);
    r
}

/// The strikes, in contact order, of lasers on target bodies.
pub fn strikes_by_body(events: &Vec<ContactEvent>, lasers: &Vec<u64>, targets: &Vec<u64>) -> (r: Vec<Strike>)
    ensures
        r@ == body_strikes(events@, lasers@, targets@),
{
    let mut r: Vec<Strike> = Vec::new();
    let mut i: usize = 0;
    while i < events.len()
        invariant
            i <= events.len(),
            r@ == body_strikes(events@.take(i as int), lasers@, targets@),
        decreases events.len() - i,
    {
        assert(events@.take(i + 1).drop_last() =~= events@.take(i as int));
        match body_strike_of(&events[i], lasers, targets) {
            Some(s) => r.push(s),
            None => {},
        }
        i = i + 1;
    }
    assert(events@.take(events.len() as int) =~= events@);
    r
}

/// How many strikes landed on `id`.
pub fn count_hits(id: u64, strikes: &Vec<Strike>) -> (r: u64)
    ensures
        r == hits_on(id, strikes@),
{
    let mut n: u64 = 0;
    let mut i: usize = 0;
    while i < strikes.len()
        invariant
            i <= strikes.len(),
            n == hits_on(id, strikes@.take(i as int)),
            n <= i,
        decreases strikes.len() - i,
    {
        assert(strikes@.take(i + 1).drop_last() =~= strikes@.take(i as int));
        if strikes[i].1 == id {
            n = n + 1;
        }
        i = i + 1;
    }
    assert(strikes@.take(strikes.len() as int) =~= strikes@);
    n
}

/// Every unit loses `dmg` hit points for each strike that landed on it;
/// ids and order are kept.
pub fn apply_hits(units: &mut Vec<(u64, i64)>, strikes: &Vec<Strike>, dmg: u32)
    ensures
        final(units).len() == old(units).len(),
        forall|j: int|
            0 <= j < old(units).len() ==> (#[trigger] final(units)@[j]).0 == old(units)@[j].0
                && final(units)@[j].1 == damaged(
                old(units)@[j].1 as int,
                dmg * hits_on(old(units)@[j].0, strikes@),
            ),
{
    let ghost before = units@;
    let mut j: usize = 0;
    while j < units.len()
        invariant
            j <= units.len(),
            units.len() == before.len(),
            forall|k: int| j <= k < before.len() ==> #[trigger] units@[k] == before[k],
            forall|k: int|
                0 <= k < j ==> (#[trigger] units@[k]).0 == before[k].0 && units@[k].1 == damaged(
                    before[k].1 as int,
                    dmg * hits_on(before[k].0, strikes@),
                ),
        decreases units.len() - j,
    {
        let (id, hp) = units[j];
        let n = count_hits(id, strikes);
        let new_hp = take_repeated_damage(hp, dmg, n);
        units.set(j, (id, new_hp));
        j = j + 1;
    }
}


/// Player lasers hitting asteroids: each contact between a player laser and an
/// asteroid body costs that asteroid `dmg` hit points. Returns the strikes in
/// contact order; their lasers are spent, and each struck asteroid that is not
/// a fragment shrinks once per strike.
pub fn player_laser_hits_asteroid(
    events: &Vec<ContactEvent>,
    lasers: &Vec<u64>,
    asteroids: &mut Vec<(u64, i64)>,
    dmg: u32,
) -> (r: Vec<Strike>)
    ensures
        r@ == body_strikes(events@, lasers@, ids_of(old(asteroids)@)),
        final(asteroids).len() == old(asteroids).len(),
        forall|j: int|
            0 <= j < old(asteroids).len() ==> (#[trigger] final(asteroids)@[j]).0 == old(asteroids)@[j].0
                && final(asteroids)@[j].1 == damaged(
                old(asteroids)@[j].1 as int,
                dmg * hits_on(old(asteroids)@[j].0, r@),
            ),
{
    let ids = unit_ids(asteroids);
    let strikes = strikes_by_body(events, lasers, &ids);
    apply_hits(asteroids, &strikes, dmg);
    strikes
}

/// Lasers hitting ships told apart by their colliders: each contact between a
/// laser and a ship costs that ship `dmg` hit points. Returns the strikes in
/// contact order; their lasers are spent.
pub fn laser_hits_ships(
    events: &Vec<ContactEvent>,
    lasers: &Vec<u64>,
    ships: &mut Vec<(u64, i64)>,
    dmg: u32,
) -> (r: Vec<Strike>)
    ensures
        r@ == collider_strikes(events@, lasers@, ids_of(old(ships)@)),
        final(ships).len() == old(ships).len(),
        forall|j: int|
            0 <= j < old(ships).len() ==> (#[trigger] final(ships)@[j]).0 == old(ships)@[j].0
                && final(ships)@[j].1 == damaged(
                old(ships)@[j].1 as int,
                dmg * hits_on(old(ships)@[j].0, r@),
            ),
{
    let ids = unit_ids(ships);
    let strikes = strikes_by_collider(events, lasers, &ids);
    apply_hits(ships, &strikes, dmg);
    strikes
}

/// Player lasers hitting the enemy ship (see `laser_hits_ships`).
pub fn player_laser_hits_enemy(
    events: &Vec<ContactEvent>,
    lasers: &Vec<u64>,
    enemies: &mut Vec<(u64, i64)>,
    dmg: u32,
) -> (r: Vec<Strike>)
    ensures
        r@ == collider_strikes(events@, lasers@, ids_of(old(enemies)@)),
        final(enemies).len() == old(enemies).len(),
        forall|j: int|
            0 <= j < old(enemies).len() ==> (#[trigger] final(enemies)@[j]).0 == old(enemies)@[j].0
                && final(enemies)@[j].1 == damaged(
                old(enemies)@[j].1 as int,
                dmg * hits_on(old(enemies)@[j].0, r@),
            ),
{
    laser_hits_ships(events, lasers, enemies, dmg)
}

/// Player lasers hitting UFOs (see `laser_hits_ships`).
pub fn player_laser_hits_ufo(
    events: &Vec<ContactEvent>,
    lasers: &Vec<u64>,
    ufos: &mut Vec<(u64, i64)>,
    dmg: u32,
) -> (r: Vec<Strike>)
    ensures
        r@ == collider_strikes(events@, lasers@, ids_of(old(ufos)@)),
        final(ufos).len() == old(ufos).len(),
        forall|j: int|
            0 <= j < old(ufos).len() ==> (#[trigger] final(ufos)@[j]).0 == old(ufos)@[j].0
                && final(ufos)@[j].1 == damaged(
                old(ufos)@[j].1 as int,
                dmg * hits_on(old(ufos)@[j].0, r@),
            ),
{
    laser_hits_ships(events, lasers, ufos, dmg)
}

/// What a volley of hostile lasers did to the player.
pub struct PlayerHits {
    /// The strikes, in contact order; their lasers are spent.
    pub strikes: Vec<Strike>,
    /// A struck player was brought to zero hit points or below: the game is lost.
    pub defeated: bool,
}

/// Some unit that was struck at least once is left with no hit points.
pub open spec fn struck_down(units: Seq<(u64, i64)>, strikes: Seq<Strike>) -> bool {
    exists|j: int|
        0 <= j < units.len() && hits_on((#[trigger] units[j]).0, strikes) > 0 && spec_destroyed(
            units[j].1 as int,
        )
}

/// Hostile lasers hitting the player: each strike costs `dmg` hit points, and
/// the game is lost when a strike leaves the player at zero or below.
pub fn lasers_hit_player(
    events: &Vec<ContactEvent>,
    lasers: &Vec<u64>,
    players: &mut Vec<(u64, i64)>,
    dmg: u32,
) -> (r: PlayerHits)
    ensures
        r.strikes@ == collider_strikes(events@, lasers@, ids_of(old(players)@)),
        final(players).len() == old(players).len(),
        forall|j: int|
            0 <= j < old(players).len() ==> (#[trigger] final(players)@[j]).0 == old(players)@[j].0
                && final(players)@[j].1 == damaged(
                old(players)@[j].1 as int,
                dmg * hits_on(old(players)@[j].0, r.strikes@),
            ),
        r.defeated == struck_down(final(players)@, r.strikes@),
        forall|j: int|
            0 <= j < final(players).len() && hits_on((#[trigger] final(players)@[j]).0, r.strikes@) > 0
                && final(players)@[j].1 <= 0 ==> r.defeated,
        r.defeated ==> exists|j: int|
            0 <= j < final(players).len() && hits_on((#[trigger] final(players)@[j]).0, r.strikes@) > 0
                && final(players)@[j].1 <= 0,
{
    let strikes = laser_hits_ships(events, lasers, players, dmg);
    let mut defeated = false;
    let mut j: usize = 0;
    while j < players.len()
        invariant
            j <= players.len(),
            defeated == exists|k: int|
                0 <= k < j && hits_on((#[trigger] players@[k]).0, strikes@) > 0 && spec_destroyed(
                    players@[k].1 as int,
                ),
        decreases players.len() - j,
    {
        let (id, hp) = players[j];
        if count_hits(id, &strikes) > 0 && hp <= 0 {
            defeated = true;
        }
        j = j + 1;
    }
    PlayerHits { strikes, defeated }
}

/// Enemy lasers hitting the player (see `lasers_hit_player`).
pub fn enemy_laser_hits_player(
    events: &Vec<ContactEvent>,
    lasers: &Vec<u64>,
    players: &mut Vec<(u64, i64)>,
    dmg: u32,
) -> (r: PlayerHits)
    ensures
        r.strikes@ == collider_strikes(events@, lasers@, ids_of(old(players)@)),
        final(players).len() == old(players).len(),
        forall|j: int|
            0 <= j < old(players).len() ==> (#[trigger] final(players)@[j]).0 == old(players)@[j].0
                && final(players)@[j].1 == damaged(
                old(players)@[j].1 as int,
                dmg * hits_on(old(players)@[j].0, r.strikes@),
            ),
        r.defeated == struck_down(final(players)@, r.strikes@),
        forall|j: int|
            0 <= j < final(players).len() && hits_on((#[trigger] final(players)@[j]).0, r.strikes@) > 0
                && final(players)@[j].1 <= 0 ==> r.defeated,
        r.defeated ==> exists|j: int|
            0 <= j < final(players).len() && hits_on((#[trigger] final(players)@[j]).0, r.strikes@) > 0
                && final(players)@[j].1 <= 0,
{
    lasers_hit_player(events, lasers, players, dmg)
}

/// UFO lasers hitting the player (see `lasers_hit_player`).
pub fn ufo_laser_hits_player(
    events: &Vec<ContactEvent>,
    lasers: &Vec<u64>,
    players: &mut Vec<(u64, i64)>,
    dmg: u32,
) -> (r: PlayerHits)
    ensures
        r.strikes@ == collider_strikes(events@, lasers@, ids_of(old(players)@)),
        final(players).len() == old(players).len(),
        forall|j: int|
            0 <= j < old(players).len() ==> (#[trigger] final(players)@[j]).0 == old(players)@[j].0
                && final(players)@[j].1 == damaged(
                old(players)@[j].1 as int,
                dmg * hits_on(old(players)@[j].0, r.strikes@),
            ),
        r.defeated == struck_down(final(players)@, r.strikes@),
        forall|j: int|
            0 <= j < final(players).len() && hits_on((#[trigger] final(players)@[j]).0, r.strikes@) > 0
                && final(players)@[j].1 <= 0 ==> r.defeated,
        r.defeated ==> exists|j: int|
            0 <= j < final(players).len() && hits_on((#[trigger] final(players)@[j]).0, r.strikes@) > 0
                && final(players)@[j].1 <= 0,
{
    lasers_hit_player(events, lasers, players, dmg)
}

/// What asteroid contacts did to the UFO.
pub struct UfoImpact {
    /// The UFO's hit points afterwards.
    pub health: i64,
    /// How many asteroid contacts hurt it (one explosion each).
    pub hits: u64,
    /// The UFO was hurt and was not already recovering: it starts recovering.
    pub start_recovery: bool,
}

/// UFOs bumping into asteroids. Asteroid damage is dealt only while exactly one
/// UFO is in play: that UFO, with `health` hit points and `recovering` telling
/// whether it is already recovering from a hit, loses `dmg` hit points per
/// contact in which a UFO collider touches an asteroid body.
pub fn ufo_hits_asteroid(
    events: &Vec<ContactEvent>,
    ufos: &Vec<u64>,
    asteroids: &Vec<u64>,
    health: i64,
    recovering: bool,
    dmg: u32,
) -> (r: UfoImpact)
    ensures
        r.hits == (if ufos.len() == 1 { count_touches(events@, ufos@, asteroids@) } else { 0 }),
        r.health == damaged(health as int, dmg * r.hits),
        r.start_recovery == (r.hits > 0 && !recovering),
{
    let hits = if ufos.len() == 1 { touch_count(events, ufos, asteroids) } else { 0 };
    proof {
        assert(dmg * 0 == 0) by (nonlinear_arith);
    }
    let new_health = take_repeated_damage(health, dmg, hits);
    UfoImpact { health: new_health, hits, start_recovery: hits > 0 && !recovering }
}

/// The pair of distinct asteroid bodies that meet in a contact, if any.
pub open spec fn asteroid_pair(e: ContactEvent, asteroids: Seq<u64>) -> Option<(u64, u64)> {
    match (e.body1, e.body2) {
        (Some(a), Some(b)) => if asteroids.contains(a) && asteroids.contains(b) && a != b {
            Some((a, b))
        } else {
            None
        },
        _ => None,
    }
}

/// The pairs of asteroids that met, in contact order.
pub open spec fn asteroid_pairs(evs: Seq<ContactEvent>, asteroids: Seq<u64>) -> Seq<(u64, u64)>
    decreases evs.len(),
{
    if evs.len() == 0 {
        Seq::empty()
    } else {
        let prev = asteroid_pairs(evs.drop_last(), asteroids);
        match asteroid_pair(evs.last(), asteroids) {
            Some(p) => prev.push(p),
            None => prev,
        }
    }
}

/// An asteroid's hit points after the collisions `pairs`, taken in order:
/// each collision it is part of takes `base`, but never more than it has.
pub open spec fn after_bumps(id: u64, hp: int, pairs: Seq<(u64, u64)>, base: int) -> int
    decreases pairs.len(),
{
    if pairs.len() == 0 {
        hp
    } else {
        let prev = after_bumps(id, hp, pairs.drop_last(), base);
        if pairs.last().0 == id || pairs.last().1 == id {
            after_bump(prev, base)
        } else {
            prev
        }
    }
}

fn asteroid_pair_of(e: &ContactEvent, asteroids: &Vec<u64>) -> (r: Option<(u64, u64)>)
    ensures
        r == asteroid_pair(*e, asteroids@),
{
    match (e.body1, e.body2) {
        (Some(a), Some(b)) => if contains_id(asteroids, a) && contains_id(asteroids, b) && a != b {
            Some((a, b))
        } else {
            None
        },
        _ => None,
    }
}

/// Asteroids colliding with each other. Each contact between two distinct
/// asteroid bodies costs both of them `base` hit points, or all they have left
/// when that is less. Returns the colliding pairs in contact order (one
/// explosion each); ids and order of `asteroids` are kept.
pub fn asteroid_hits_asteroid(events: &Vec<ContactEvent>, asteroids: &mut Vec<(u64, i64)>, base: u32) -> (r: Vec<(u64, u64)>)
    ensures
        r@ == asteroid_pairs(events@, ids_of(old(asteroids)@)),
        final(asteroids).len() == old(asteroids).len(),
        forall|j: int|
            0 <= j < old(asteroids).len() ==> (#[trigger] final(asteroids)@[j]).0 == old(asteroids)@[j].0
                && final(asteroids)@[j].1 == after_bumps(
                old(asteroids)@[j].0,
                old(asteroids)@[j].1 as int,
                r@,
                base as int,
            ),
        forall|i: int|
            0 <= i < events.len() && (#[trigger] events@[i]).body1 is Some && events@[i].body2 is Some
                && ids_of(old(asteroids)@).contains(events@[i].body1->0) && ids_of(old(asteroids)@).contains(
                events@[i].body2->0,
            ) && events@[i].body1->0 != events@[i].body2->0 ==> r@.contains(
                (events@[i].body1->0, events@[i].body2->0),
            ),
        forall|k: int| 0 <= k < r.len() ==> (#[trigger] r@[k]).0 != r@[k].1,
        forall|j: int, k: int|
            0 <= j < old(asteroids).len() && 0 <= k < r.len() && ((#[trigger] r@[k]).0 == old(
                asteroids,
            )@[j].0 || r@[k].1 == old(asteroids)@[j].0) ==> 0 <= (#[trigger] final(asteroids)@[j]).1 && (
            final(asteroids)@[j].1 == 0 || final(asteroids)@[j].1 <= old(asteroids)@[j].1 - base),
{
    let ids = unit_ids(asteroids);
    let mut pairs: Vec<(u64, u64)> = Vec::new();
    let mut i: usize = 0;
    while i < events.len()
        invariant
            i <= events.len(),
            pairs@ == asteroid_pairs(events@.take(i as int), ids@),
        decreases events.len() - i,
    {
        assert(events@.take(i + 1).drop_last() =~= events@.take(i as int));
        match asteroid_pair_of(&events[i], &ids) {
            Some(p) => pairs.push(p),
            None => {},
        }
        i = i + 1;
    }
    assert(events@.take(events.len() as int) =~= events@);
    let ghost before = asteroids@;
    let mut k: usize = 0;
    while k < pairs.len()
        invariant
            k <= pairs.len(),
            asteroids.len() == before.len(),
            forall|j: int|
                0 <= j < before.len() ==> (#[trigger] asteroids@[j]).0 == before[j].0
                    && asteroids@[j].1 == after_bumps(
                    before[j].0,
                    before[j].1 as int,
                    pairs@.take(k as int),
                    base as int,
                ),
        decreases pairs.len() - k,
    {
        let (a, b) = pairs[k];
        let ghost mid = asteroids@;
        let mut j: usize = 0;
        while j < asteroids.len()
            invariant
                j <= asteroids.len(),
                asteroids.len() == mid.len(),
                forall|m: int| j <= m < mid.len() ==> #[trigger] asteroids@[m] == mid[m],
                forall|m: int|
                    0 <= m < j ==> (#[trigger] asteroids@[m]).0 == mid[m].0 && asteroids@[m].1 == (
                    if mid[m].0 == a || mid[m].0 == b {
                        after_bump(mid[m].1 as int, base as int)
                    } else {
                        mid[m].1 as int
                    }),
            decreases asteroids.len() - j,
        {
            let (id, hp) = asteroids[j];
            if id == a || id == b {
                let nh = bump(hp, base);
                asteroids.set(j, (id, nh));
            }
            j = j + 1;
        }
        assert(pairs@.take(k + 1).drop_last() =~= pairs@.take(k as int));
        k = k + 1;
    }
    assert(pairs@.take(pairs.len() as int) =~= pairs@);
    proof {
        lemma_pairs_cover_contacts(events@, ids@);
        assert forall|j: int, k: int|
            0 <= j < before.len() && 0 <= k < pairs.len() && ((#[trigger] pairs@[k]).0 == before[j].0
                || pairs@[k].1 == before[j].0) implies 0 <= (#[trigger] asteroids@[j]).1 && (asteroids@[j].1 == 0
            || asteroids@[j].1 <= before[j].1 - base) by {
            assert(involves(pairs@[k], before[j].0));
            lemma_bumps_take_their_toll(before[j].0, before[j].1 as int, pairs@, base as int);
        }
    }
    pairs
}

/// The ids of the units with no hit points left, in order.
pub open spec fn destroyed_ids(units: Seq<(u64, i64)>) -> Seq<u64>
    decreases units.len(),
{
    if units.len() == 0 {
        Seq::empty()
    } else {
        let prev = destroyed_ids(units.drop_last());
        if spec_destroyed(units.last().1 as int) {
            prev.push(units.last().0)
        } else {
            prev
        }
    }
}

/// The UFOs with no hit points left, in order: each blows up and is removed.
pub fn check_ufo_destroyed(ufos: &Vec<(u64, i64)>) -> (r: Vec<u64>)
    ensures
        r@ == destroyed_ids(ufos@),
        forall|j: int| 0 <= j < ufos.len() && (#[trigger] ufos@[j]).1 <= 0 ==> r@.contains(ufos@[j].0),
{
    let mut r: Vec<u64> = Vec::new();
    let mut i: usize = 0;
    while i < ufos.len()
        invariant
            i <= ufos.len(),
            r@ == destroyed_ids(ufos@.take(i as int)),
        decreases ufos.len() - i,
    {
        assert(ufos@.take(i + 1).drop_last() =~= ufos@.take(i as int));
        let (id, hp) = ufos[i];
        if hp <= 0 {
            r.push(id);
        }
        i = i + 1;
    }
    assert(ufos@.take(ufos.len() as int) =~= ufos@);
    proof {
        lemma_destroyed_ids(ufos@);
    }
    r
}


/// A collision pair that involves asteroid `id`.
pub open spec fn involves(p: (u64, u64), id: u64) -> bool {
    p.0 == id || p.1 == id
}

/// An asteroid caught in at least one asteroid-asteroid collision ends with
/// zero hit points or more, never a negative amount; and collisions never
/// raise the hit points of an asteroid that had some.
pub proof fn lemma_bumps_never_negative(id: u64, hp: int, pairs: Seq<(u64, u64)>, base: int)
    requires
        base >= 0,
    ensures
        (exists|k: int| 0 <= k < pairs.len() && involves(#[trigger] pairs[k], id)) ==> after_bumps(
            id,
            hp,
            pairs,
            base,
        ) >= 0,
        hp >= 0 ==> 0 <= after_bumps(id, hp, pairs, base) <= hp,
    decreases pairs.len(),
{
    if pairs.len() > 0 {
        let prev = pairs.drop_last();
        lemma_bumps_never_negative(id, hp, prev, base);
        if !involves(pairs.last(), id) && exists|k: int| 0 <= k < pairs.len() && involves(#[trigger] pairs[k], id) {
            let k = choose|k: int| 0 <= k < pairs.len() && involves(#[trigger] pairs[k], id);
            assert(k != pairs.len() - 1);
            assert(prev[k] == pairs[k]);
        }
    }
}

/// Every strike names a laser that is a laser and a target that is a target.
pub proof fn lemma_strikes_are_real(evs: Seq<ContactEvent>, lasers: Seq<u64>, targets: Seq<u64>)
    ensures
        forall|k: int|
            0 <= k < collider_strikes(evs, lasers, targets).len() ==> lasers.contains(
                (#[trigger] collider_strikes(evs, lasers, targets)[k]).0,
            ) && targets.contains(collider_strikes(evs, lasers, targets)[k].1),
        forall|k: int|
            0 <= k < body_strikes(evs, lasers, targets).len() ==> lasers.contains(
                (#[trigger] body_strikes(evs, lasers, targets)[k]).0,
            ) && targets.contains(body_strikes(evs, lasers, targets)[k].1),
        collider_strikes(evs, lasers, targets).len() <= evs.len(),
        body_strikes(evs, lasers, targets).len() <= evs.len(),
    decreases evs.len(),
{
    if evs.len() > 0 {
        lemma_strikes_are_real(evs.drop_last(), lasers, targets);
    }
}


/// Some strike on `id` left it with no hit points, the strikes taken in order
/// from `hp`, each costing `dmg`.
pub open spec fn downed_by_a_strike(id: u64, hp: int, strikes: Seq<Strike>, dmg: int) -> bool {
    exists|k: int|
        0 <= k < strikes.len() && (#[trigger] strikes[k]).1 == id && spec_destroyed(
            damaged(hp, dmg * hits_on(id, strikes.take(k + 1))),
        )
}

/// The game is lost exactly when one of the frame's strikes, taken one after
/// the other, leaves the player with no hit points: that is, when the player
/// was struck and its hit points after all the strikes are gone.
pub proof fn lemma_defeat_on_the_fatal_strike(id: u64, hp: int, strikes: Seq<Strike>, dmg: int)
    requires
        dmg >= 0,
        i64::MIN <= hp <= i64::MAX,
    ensures
        downed_by_a_strike(id, hp, strikes, dmg) <==> (hits_on(id, strikes) > 0 && spec_destroyed(
            damaged(hp, dmg * hits_on(id, strikes)),
        )),
    decreases strikes.len(),
{
    if strikes.len() > 0 {
        let prev = strikes.drop_last();
        let n = strikes.len() - 1;
        lemma_defeat_on_the_fatal_strike(id, hp, prev, dmg);
        assert(strikes.take(n + 1) =~= strikes);
        assert forall|k: int| 0 <= k < n implies #[trigger] strikes.take(k + 1) == prev.take(k + 1) by {
            assert(strikes.take(k + 1) =~= prev.take(k + 1));
        }
        let h = hits_on(id, prev);
        assert(dmg * h <= dmg * (h + 1)) by (nonlinear_arith)
            requires
                dmg >= 0,
                h >= 0,
        ;
        if downed_by_a_strike(id, hp, prev, dmg) {
            let k = choose|k: int|
                0 <= k < prev.len() && (#[trigger] prev[k]).1 == id && spec_destroyed(
                    damaged(hp, dmg * hits_on(id, prev.take(k + 1))),
                );
            assert(strikes[k] == prev[k]);
            assert(strikes.take(k + 1) == prev.take(k + 1));
        }
        if downed_by_a_strike(id, hp, strikes, dmg) && strikes.last().1 != id {
            let k = choose|k: int|
                0 <= k < strikes.len() && (#[trigger] strikes[k]).1 == id && spec_destroyed(
                    damaged(hp, dmg * hits_on(id, strikes.take(k + 1))),
                );
            assert(k < n);
            assert(prev[k] == strikes[k]);
            assert(strikes.take(k + 1) == prev.take(k + 1));
        }
        if downed_by_a_strike(id, hp, strikes, dmg) && strikes.last().1 == id && !downed_by_a_strike(
            id,
            hp,
            prev,
            dmg,
        ) {
            let k = choose|k: int|
                0 <= k < strikes.len() && (#[trigger] strikes[k]).1 == id && spec_destroyed(
                    damaged(hp, dmg * hits_on(id, strikes.take(k + 1))),
                );
            if k < n {
                assert(prev[k] == strikes[k]);
                assert(strikes.take(k + 1) == prev.take(k + 1));
            }
        }
        if strikes.last().1 == id && spec_destroyed(damaged(hp, dmg * hits_on(id, strikes))) {
            assert(strikes[n].1 == id);
        }
    }
}


/// Every contact between two distinct asteroid bodies is a collision pair,
/// whichever body comes first; and no asteroid collides with itself.
pub proof fn lemma_pairs_cover_contacts(evs: Seq<ContactEvent>, asteroids: Seq<u64>)
    ensures
        forall|i: int|
            0 <= i < evs.len() && (#[trigger] evs[i]).body1 is Some && evs[i].body2 is Some && asteroids.contains(
                evs[i].body1->0,
            ) && asteroids.contains(evs[i].body2->0) && evs[i].body1->0 != evs[i].body2->0 ==> asteroid_pairs(
                evs,
                asteroids,
            ).contains((evs[i].body1->0, evs[i].body2->0)),
        forall|k: int|
            0 <= k < asteroid_pairs(evs, asteroids).len() ==> (#[trigger] asteroid_pairs(evs, asteroids)[k]).0
                != asteroid_pairs(evs, asteroids)[k].1,
        forall|k: int|
            0 <= k < asteroid_pairs(evs, asteroids).len() ==> asteroids.contains(
                (#[trigger] asteroid_pairs(evs, asteroids)[k]).0,
            ) && asteroids.contains(asteroid_pairs(evs, asteroids)[k].1),
    decreases evs.len(),
{
    if evs.len() > 0 {
        let prev = evs.drop_last();
        lemma_pairs_cover_contacts(prev, asteroids);
        let pp = asteroid_pairs(prev, asteroids);
        let cur = asteroid_pairs(evs, asteroids);
        assert forall|i: int|
            0 <= i < evs.len() && (#[trigger] evs[i]).body1 is Some && evs[i].body2 is Some && asteroids.contains(
                evs[i].body1->0,
            ) && asteroids.contains(evs[i].body2->0) && evs[i].body1->0 != evs[i].body2->0 implies cur.contains(
            (evs[i].body1->0, evs[i].body2->0),
        ) by {
            let a = evs[i].body1->0;
            let b = evs[i].body2->0;
            if i == evs.len() - 1 {
                assert(cur.last() == (a, b));
                assert(cur[cur.len() - 1] == (a, b));
            } else {
                assert(prev[i] == evs[i]);
                assert(pp.contains((a, b)));
                let k = choose|k: int| 0 <= k < pp.len() && pp[k] == (a, b);
                assert(cur[k] == pp[k]);
            }
        }
        assert forall|k: int| 0 <= k < cur.len() implies (#[trigger] cur[k]).0 != cur[k].1 && asteroids.contains(
            cur[k].0,
        ) && asteroids.contains(cur[k].1) by {
            if k < pp.len() {
                assert(cur[k] == pp[k]);
            }
        }
    }
}

/// An asteroid with hit points that takes part in collisions ends with none
/// left, or with at least `base` fewer; never below zero.
pub proof fn lemma_bumps_take_their_toll(id: u64, hp: int, pairs: Seq<(u64, u64)>, base: int)
    requires
        base >= 0,
        exists|k: int| 0 <= k < pairs.len() && involves(#[trigger] pairs[k], id),
    ensures
        0 <= after_bumps(id, hp, pairs, base),
        after_bumps(id, hp, pairs, base) == 0 || after_bumps(id, hp, pairs, base) <= hp - base,
    decreases pairs.len(),
{
    let prev = pairs.drop_last();
    lemma_bumps_never_negative(id, hp, pairs, base);
    if involves(pairs.last(), id) {
        let p = after_bumps(id, hp, prev, base);
        if exists|k: int| 0 <= k < prev.len() && involves(#[trigger] prev[k], id) {
            lemma_bumps_take_their_toll(id, hp, prev, base);
        }
        lemma_bumps_at_most(id, hp, prev, base);
    } else {
        let k = choose|k: int| 0 <= k < pairs.len() && involves(#[trigger] pairs[k], id);
        assert(k != pairs.len() - 1);
        assert(prev[k] == pairs[k]);
        lemma_bumps_take_their_toll(id, hp, prev, base);
    }
}

/// Collisions never raise an asteroid's hit points above where they started,
/// unless it had fewer than none (then a collision sets it to zero).
pub proof fn lemma_bumps_at_most(id: u64, hp: int, pairs: Seq<(u64, u64)>, base: int)
    requires
        base >= 0,
    ensures
        after_bumps(id, hp, pairs, base) <= if hp < 0 { 0 } else { hp },
    decreases pairs.len(),
{
    if pairs.len() > 0 {
        lemma_bumps_at_most(id, hp, pairs.drop_last(), base);
    }
}

/// A player struck this frame and left at zero hit points or below is struck
/// down, and only such a player: the game is lost exactly then.
pub proof fn lemma_struck_down_when_out_of_hit_points(units: Seq<(u64, i64)>, strikes: Seq<Strike>)
    ensures
        forall|j: int|
            0 <= j < units.len() && hits_on((#[trigger] units[j]).0, strikes) > 0 && units[j].1 <= 0
                ==> struck_down(units, strikes),
        struck_down(units, strikes) ==> exists|j: int|
            0 <= j < units.len() && hits_on((#[trigger] units[j]).0, strikes) > 0 && units[j].1 <= 0,
{
}

/// A contact between a player collider and any UFO collider, in either
/// order, is a crash.
pub proof fn lemma_any_ufo_crash_counts(e: ContactEvent, players: Seq<u64>, ufos: Seq<u64>)
    ensures
        colliders_meet(e, players, ufos) <==> ((players.contains(e.collider1) && ufos.contains(e.collider2)) || (
        players.contains(e.collider2) && ufos.contains(e.collider1))),
{
}


/// What a single contact stands for, in plain terms: a touch, a strike told
/// by colliders, a strike told by bodies.
pub proof fn lemma_contact_rules(e: ContactEvent, side: Seq<u64>, other: Seq<u64>)
    ensures
        side.contains(e.collider1) ==> (touches(e, side, other) <==> (e.body2 is Some && other.contains(
            e.body2->0,
        ))),
        !side.contains(e.collider1) && side.contains(e.collider2) ==> (touches(e, side, other) <==> (e.body1 is Some
            && other.contains(e.body1->0))),
        !side.contains(e.collider1) && !side.contains(e.collider2) ==> !touches(e, side, other),
        side.contains(e.collider1) && other.contains(e.collider2) ==> collider_strike(e, side, other) == Some(
            (e.collider1, e.collider2),
        ),
        !(side.contains(e.collider1) && other.contains(e.collider2)) && side.contains(e.collider2)
            && other.contains(e.collider1) ==> collider_strike(e, side, other) == Some((e.collider2, e.collider1)),
        !(side.contains(e.collider1) && other.contains(e.collider2)) && !(side.contains(e.collider2)
            && other.contains(e.collider1)) ==> collider_strike(e, side, other) is None,
        side.contains(e.collider1) && e.body2 is Some && other.contains(e.body2->0) ==> body_strike(e, side, other)
            == Some((e.collider1, e.body2->0)),
        !side.contains(e.collider1) && side.contains(e.collider2) && e.body1 is Some && other.contains(e.body1->0)
            ==> body_strike(e, side, other) == Some((e.collider2, e.body1->0)),
        body_strike(e, side, other) is Some <==> touches(e, side, other),
{
}

/// A list of strikes holds exactly one strike per contact that stands for
/// one, in contact order: each such contact's strike is in the list, each
/// entry comes from a contact, and there are as many entries as such contacts.
pub proof fn lemma_strike_lists(evs: Seq<ContactEvent>, lasers: Seq<u64>, targets: Seq<u64>)
    ensures
        forall|i: int|
            0 <= i < evs.len() && (#[trigger] collider_strike(evs[i], lasers, targets)) is Some ==> collider_strikes(
                evs,
                lasers,
                targets,
            ).contains(collider_strike(evs[i], lasers, targets)->0),
        forall|k: int|
            0 <= k < collider_strikes(evs, lasers, targets).len() ==> exists|i: int|
                0 <= i < evs.len() && collider_strike(evs[i], lasers, targets) == Some(
                    #[trigger] collider_strikes(evs, lasers, targets)[k],
                ),
        collider_strikes(evs, lasers, targets).len() == evs.filter(
            |e: ContactEvent| collider_strike(e, lasers, targets) is Some,
        ).len(),
        forall|i: int|
            0 <= i < evs.len() && (#[trigger] body_strike(evs[i], lasers, targets)) is Some ==> body_strikes(
                evs,
                lasers,
                targets,
            ).contains(body_strike(evs[i], lasers, targets)->0),
        forall|k: int|
            0 <= k < body_strikes(evs, lasers, targets).len() ==> exists|i: int|
                0 <= i < evs.len() && body_strike(evs[i], lasers, targets) == Some(
                    #[trigger] body_strikes(evs, lasers, targets)[k],
                ),
        body_strikes(evs, lasers, targets).len() == evs.filter(
            |e: ContactEvent| body_strike(e, lasers, targets) is Some,
        ).len(),
    decreases evs.len(),
{
    reveal(Seq::filter);
    if evs.len() > 0 {
        let prev = evs.drop_last();
        lemma_strike_lists(prev, lasers, targets);
        let n = evs.len() - 1;
        let pc = collider_strikes(prev, lasers, targets);
        let cc = collider_strikes(evs, lasers, targets);
        let pb = body_strikes(prev, lasers, targets);
        let cb = body_strikes(evs, lasers, targets);
        assert forall|i: int|
            0 <= i < evs.len() && (#[trigger] collider_strike(evs[i], lasers, targets)) is Some implies cc.contains(
            collider_strike(evs[i], lasers, targets)->0,
        ) by {
            if i == n {
                assert(cc[cc.len() - 1] == collider_strike(evs[i], lasers, targets)->0);
            } else {
                assert(prev[i] == evs[i]);
                assert(collider_strike(prev[i], lasers, targets) is Some);
                let k = choose|k: int| 0 <= k < pc.len() && pc[k] == collider_strike(prev[i], lasers, targets)->0;
                assert(cc[k] == pc[k]);
            }
        }
        assert forall|k: int| 0 <= k < cc.len() implies exists|i: int|
            0 <= i < evs.len() && collider_strike(evs[i], lasers, targets) == Some(#[trigger] cc[k]) by {
            if k < pc.len() {
                assert(cc[k] == pc[k]);
                let i = choose|i: int| 0 <= i < prev.len() && collider_strike(prev[i], lasers, targets) == Some(pc[k]);
                assert(prev[i] == evs[i]);
            } else {
                assert(collider_strike(evs[n], lasers, targets) == Some(cc[k]));
            }
        }
        assert forall|i: int|
            0 <= i < evs.len() && (#[trigger] body_strike(evs[i], lasers, targets)) is Some implies cb.contains(
            body_strike(evs[i], lasers, targets)->0,
        ) by {
            if i == n {
                assert(cb[cb.len() - 1] == body_strike(evs[i], lasers, targets)->0);
            } else {
                assert(prev[i] == evs[i]);
                assert(body_strike(prev[i], lasers, targets) is Some);
                let k = choose|k: int| 0 <= k < pb.len() && pb[k] == body_strike(prev[i], lasers, targets)->0;
                assert(cb[k] == pb[k]);
            }
        }
        assert forall|k: int| 0 <= k < cb.len() implies exists|i: int|
            0 <= i < evs.len() && body_strike(evs[i], lasers, targets) == Some(#[trigger] cb[k]) by {
            if k < pb.len() {
                assert(cb[k] == pb[k]);
                let i = choose|i: int| 0 <= i < prev.len() && body_strike(prev[i], lasers, targets) == Some(pb[k]);
                assert(prev[i] == evs[i]);
            } else {
                assert(body_strike(evs[n], lasers, targets) == Some(cb[k]));
            }
        }
    }
}

/// The hits on `id` are the strikes whose target is `id`.
pub proof fn lemma_hits_are_strikes_on(id: u64, strikes: Seq<Strike>)
    ensures
        hits_on(id, strikes) == strikes.filter(|s: Strike| s.1 == id).len(),
    decreases strikes.len(),
{
    reveal(Seq::filter);
    if strikes.len() > 0 {
        lemma_hits_are_strikes_on(id, strikes.drop_last());
    }
}

/// The touches counted are the contacts that are touches.
pub proof fn lemma_touches_counted(evs: Seq<ContactEvent>, side: Seq<u64>, other: Seq<u64>)
    ensures
        count_touches(evs, side, other) == evs.filter(|e: ContactEvent| touches(e, side, other)).len(),
    decreases evs.len(),
{
    reveal(Seq::filter);
    if evs.len() > 0 {
        lemma_touches_counted(evs.drop_last(), side, other);
    }
}

/// The destroyed list names exactly the units at zero hit points or below,
/// one entry each.
pub proof fn lemma_destroyed_ids(units: Seq<(u64, i64)>)
    ensures
        forall|j: int| 0 <= j < units.len() && (#[trigger] units[j]).1 <= 0 ==> destroyed_ids(units).contains(units[j].0),
        forall|k: int|
            0 <= k < destroyed_ids(units).len() ==> exists|j: int|
                0 <= j < units.len() && units[j].1 <= 0 && units[j].0 == #[trigger] destroyed_ids(units)[k],
        destroyed_ids(units).len() == units.filter(|u: (u64, i64)| u.1 <= 0).len(),
    decreases units.len(),
{
    reveal(Seq::filter);
    if units.len() > 0 {
        let prev = units.drop_last();
        lemma_destroyed_ids(prev);
        let n = units.len() - 1;
        let pd = destroyed_ids(prev);
        let cd = destroyed_ids(units);
        assert forall|j: int| 0 <= j < units.len() && (#[trigger] units[j]).1 <= 0 implies cd.contains(units[j].0) by {
            if j == n {
                assert(cd[cd.len() - 1] == units[j].0);
            } else {
                assert(prev[j] == units[j]);
                let k = choose|k: int| 0 <= k < pd.len() && pd[k] == prev[j].0;
                assert(cd[k] == pd[k]);
            }
        }
        assert forall|k: int| 0 <= k < cd.len() implies exists|j: int|
            0 <= j < units.len() && units[j].1 <= 0 && units[j].0 == #[trigger] cd[k] by {
            if k < pd.len() {
                assert(cd[k] == pd[k]);
                let j = choose|j: int| 0 <= j < prev.len() && prev[j].1 <= 0 && prev[j].0 == pd[k];
                assert(prev[j] == units[j]);
            } else {
                assert(units[n].0 == cd[k]);
            }
        }
    }
}


/// Collisions that do not involve an asteroid leave its hit points alone.
pub proof fn lemma_uninvolved_keeps_hit_points(id: u64, hp: int, pairs: Seq<(u64, u64)>, base: int)
    requires
        forall|k: int| 0 <= k < pairs.len() ==> (#[trigger] pairs[k]).0 != id && pairs[k].1 != id,
    ensures
        after_bumps(id, hp, pairs, base) == hp,
    decreases pairs.len(),
{
    if pairs.len() > 0 {
        let prev = pairs.drop_last();
        assert forall|k: int| 0 <= k < prev.len() implies (#[trigger] prev[k]).0 != id && prev[k].1 != id by {
            assert(prev[k] == pairs[k]);
        }
        lemma_uninvolved_keeps_hit_points(id, hp, prev, base);
        assert(pairs.last() == pairs[pairs.len() - 1]);
    }
}

} // verus!
