use vstd::prelude::*;
use rand::Rng;
use rand::rngs::ThreadRng;

verus! {

/// Hit points of a whole asteroid when it is spawned.
pub const ASTEROID_HEALTH: i64 = 40;

/// Hit points of an asteroid fragment.
pub const FRAGMENT_HEALTH: i64 = 60;

/// How many colours asteroids are painted from.
pub const ASTEROID_COLOR_COUNT: usize = 12;

/// The part of an asteroid a piece belongs to.
#[derive(Clone, Copy, Debug, PartialEq, Eq, Structural)]
pub enum AsteroidGroup {
    Core,
    Medium(usize),
}

/// The kind of hit area a piece with a collider has.
#[derive(Clone, Copy, Debug, PartialEq, Eq, Structural)]
pub enum AsteroidHitArea {
    Core,
    Medium,
}

/// How a destroyed asteroid breaks up.
#[derive(Clone, Copy, Debug, PartialEq, Eq, Structural)]
pub struct Breakup {
    /// A new fragment is made from the medium lumps.
    pub medium_fragment: bool,
    /// A new fragment is made from the core.
    pub core_fragment: bool,
}

/// Some piece belongs to a medium lump.
pub open spec fn has_medium(groups: Seq<Option<AsteroidGroup>>) -> bool {
    exists|i: int| 0 <= i < groups.len() && (#[trigger] groups[i] matches Some(AsteroidGroup::Medium(_)))
}

/// Some piece belongs to the core.
pub open spec fn has_core(groups: Seq<Option<AsteroidGroup>>) -> bool {
    exists|i: int| 0 <= i < groups.len() && #[trigger] groups[i] == Some(AsteroidGroup::Core)
}

/// The break-up rule: an asteroid with hit points left holds together; a
/// destroyed fragment just blows up; a destroyed whole asteroid blows up and
/// leaves a fragment for its medium lumps, if it has any, and one for its
/// core, if it has one.
pub open spec fn breakup(is_fragment: bool, hp: int, groups: Seq<Option<AsteroidGroup>>) -> Option<Breakup> {
    if hp > 0 {
        None
    } else if is_fragment {
        Some(Breakup { medium_fragment: false, core_fragment: false })
    } else {
        Some(Breakup { medium_fragment: has_medium(groups), core_fragment: has_core(groups) })
    }
}

/// How an asteroid with these hit points and children groups breaks up (see
/// `breakup`); `groups` holds, for each child piece, its group if it has one.
pub fn plan_breakup(is_fragment: bool, health: i64, groups: &Vec<Option<AsteroidGroup>>) -> (r: Option<Breakup>)
    ensures
        r == breakup(is_fragment, health as int, groups@),
        health > 0 ==> r is None,
        health <= 0 ==> r == Some(
            Breakup {
                medium_fragment: !is_fragment && exists|i: int|
                    0 <= i < groups.len() && (#[trigger] groups@[i] matches Some(AsteroidGroup::Medium(_))),
                core_fragment: !is_fragment && exists|i: int|
                    0 <= i < groups.len() && #[trigger] groups@[i] == Some(AsteroidGroup::Core),
            },
        ),
{
    if health > 0 {
        return None;
    }
    if is_fragment {
        return Some(Breakup { medium_fragment: false, core_fragment: false });
    }
    let mut medium = false;
    let mut core = false;
    let mut i: usize = 0;
    while i < groups.len()
        invariant
            i <= groups.len(),
            medium == exists|k: int| 0 <= k < i && (#[trigger] groups@[k] matches Some(AsteroidGroup::Medium(_))),
            core == exists|k: int| 0 <= k < i && #[trigger] groups@[k] == Some(AsteroidGroup::Core),
        decreases groups.len() - i,
    {
        match groups[i] {
            Some(AsteroidGroup::Core) => {
                core = true;
            },
            Some(AsteroidGroup::Medium(_)) => {
                medium = true;
            },
            None => {},
        }
        i = i + 1;
    }
    Some(Breakup { medium_fragment: medium, core_fragment: core })
}

/// An asteroid in play, for the break-up check.
pub struct AsteroidBody {
    pub id: u64,
    pub health: i64,
    pub is_fragment: bool,
    /// For each child piece, its group if it has one.
    pub groups: Vec<Option<AsteroidGroup>>,
}

/// The break-ups of a list of asteroids: those that break up, in order.
pub open spec fn breakups(asts: Seq<AsteroidBody>) -> Seq<(u64, Breakup)>
    decreases asts.len(),
{
    if asts.len() == 0 {
        Seq::empty()
    } else {
        let prev = breakups(asts.drop_last());
        let a = asts.last();
        match breakup(a.is_fragment, a.health as int, a.groups@) {
            Some(b) => prev.push((a.id, b)),
            None => prev,
        }
    }
}

/// Splits the destroyed asteroids: fragments are listed first, then whole
/// asteroids, each in order; every asteroid listed here is removed.
pub fn split_asteroids(fragments: &Vec<AsteroidBody>, wholes: &Vec<AsteroidBody>) -> (r: Vec<(u64, Breakup)>)
    ensures
        r@ == breakups(fragments@) + breakups(wholes@),
        forall|i: int|
            0 <= i < fragments.len() && (#[trigger] fragments@[i]).health <= 0 ==> r@.contains(
                (fragments@[i].id, breakup_of_destroyed(fragments@[i])),
            ),
        forall|i: int|
            0 <= i < wholes.len() && (#[trigger] wholes@[i]).health <= 0 ==> r@.contains(
                (wholes@[i].id, breakup_of_destroyed(wholes@[i])),
            ),
        r.len() == fragments@.filter(|a: AsteroidBody| a.health <= 0).len() + wholes@.filter(
            |a: AsteroidBody| a.health <= 0,
        ).len(),
{
    let mut r: Vec<(u64, Breakup)> = Vec::new();
    let mut i: usize = 0;
    while i < fragments.len()
        invariant
            i <= fragments.len(),
            r@ == breakups(fragments@.take(i as int)),
        decreases fragments.len() - i,
    {
        assert(fragments@.take(i + 1).drop_last() =~= fragments@.take(i as int));
        let a = &fragments[i];
        match plan_breakup(a.is_fragment, a.health, &a.groups) {
            Some(b) => r.push((a.id, b)),
            None => {},
        }
        i = i + 1;
    }
    assert(fragments@.take(fragments.len() as int) =~= fragments@);
    let ghost first = r@;
    let mut j: usize = 0;
    while j < wholes.len()
        invariant
            j <= wholes.len(),
            first == breakups(fragments@),
            r@ == first + breakups(wholes@.take(j as int)),
        decreases wholes.len() - j,
    {
        assert(wholes@.take(j + 1).drop_last() =~= wholes@.take(j as int));
        let a = &wholes[j];
        match plan_breakup(a.is_fragment, a.health, &a.groups) {
            Some(b) => {
                r.push((a.id, b));
                assert(first + breakups(wholes@.take(j + 1)) =~= (first + breakups(wholes@.take(j as int))).push((a.id, b)));
            },
            None => {},
        }
        j = j + 1;
    }
    assert(wholes@.take(wholes.len() as int) =~= wholes@);
    proof {
        lemma_every_destroyed_asteroid_breaks_up(fragments@);
        lemma_every_destroyed_asteroid_breaks_up(wholes@);
        let f = breakups(fragments@);
        let w = breakups(wholes@);
        assert forall|i: int|
            0 <= i < fragments.len() && (#[trigger] fragments@[i]).health <= 0 implies r@.contains(
            (fragments@[i].id, breakup_of_destroyed(fragments@[i])),
        ) by {
            let k = choose|k: int| 0 <= k < f.len() && f[k] == (fragments@[i].id, breakup_of_destroyed(fragments@[i]));
            assert(r@[k] == f[k]);
        }
        assert forall|i: int|
            0 <= i < wholes.len() && (#[trigger] wholes@[i]).health <= 0 implies r@.contains(
            (wholes@[i].id, breakup_of_destroyed(wholes@[i])),
        ) by {
            let k = choose|k: int| 0 <= k < w.len() && w[k] == (wholes@[i].id, breakup_of_destroyed(wholes@[i]));
            assert(r@[f.len() + k] == w[k]);
        }
    }
    r
}

/// A destroyed fragment never breaks up further, a destroyed whole asteroid
/// always breaks up (into at most two fragments, one per flag of its
/// `Breakup`), and an asteroid with hit points left holds together.
pub proof fn lemma_fragments_do_not_split(hp: int, groups: Seq<Option<AsteroidGroup>>)
    ensures
        breakup(true, hp, groups) matches Some(b) ==> !b.medium_fragment && !b.core_fragment,
        hp > 0 ==> breakup(true, hp, groups) is None && breakup(false, hp, groups) is None,
        hp <= 0 ==> breakup(false, hp, groups) is Some,
{
}

/// rand's thread-local random number generator, carried through as it is.
#[verifier::external_type_specification]
#[verifier::external_body]
pub struct ExThreadRng(ThreadRng);


/// How a destroyed asteroid breaks up: a fragment into nothing; a whole
/// asteroid into a fragment for its medium lumps if it has any, and one for
/// its core if it has one.
pub open spec fn breakup_of_destroyed(a: AsteroidBody) -> Breakup {
    Breakup {
        medium_fragment: !a.is_fragment && has_medium(a.groups@),
        core_fragment: !a.is_fragment && has_core(a.groups@),
    }
}

/// Every destroyed asteroid of a list (zero hit points or fewer) breaks up,
/// each the way `breakup_of_destroyed` says, and there is one break-up per
/// destroyed asteroid: no more, no fewer.
pub proof fn lemma_every_destroyed_asteroid_breaks_up(asts: Seq<AsteroidBody>)
    ensures
        forall|i: int|
            0 <= i < asts.len() && (#[trigger] asts[i]).health <= 0 ==> breakups(asts).contains(
                (asts[i].id, breakup_of_destroyed(asts[i])),
            ),
        breakups(asts).len() == asts.filter(|a: AsteroidBody| a.health <= 0).len(),
    decreases asts.len(),
{
    reveal(Seq::filter);
    if asts.len() > 0 {
        let prev = asts.drop_last();
        lemma_every_destroyed_asteroid_breaks_up(prev);
        let pb = breakups(prev);
        let cur = breakups(asts);
        assert forall|i: int|
            0 <= i < asts.len() && (#[trigger] asts[i]).health <= 0 implies cur.contains(
            (asts[i].id, breakup_of_destroyed(asts[i])),
        ) by {
            if i == asts.len() - 1 {
                assert(cur[cur.len() - 1] == (asts[i].id, breakup_of_destroyed(asts[i])));
            } else {
                assert(prev[i] == asts[i]);
                let k = choose|k: int| 0 <= k < pb.len() && pb[k] == (prev[i].id, breakup_of_destroyed(prev[i]));
                assert(cur[k] == pb[k]);
            }
        }
    }
}

/// Which pebbles and lumps make up a new asteroid, and its colour.
pub struct AsteroidLayout {
    /// Index into the asteroid palette.
    pub color: usize,
    /// For each medium lump, how many pebbles sit on it.
    pub lumps: Vec<u32>,
    /// How many pebbles sit on the core.
    pub pebbles: u32,
}

/// `rand::Rng::random_range` on an inclusive `u32` range: rand documents that
/// it generates a value in the range, and panics on an empty one. The value
/// rests on chance: nothing more is said of it.
#[verifier::external_body]
fn roll(rng: &mut ThreadRng, lo: u32, hi: u32) -> (r: u32)
    requires
        lo <= hi,
    ensures
        lo <= r <= hi,
{
    rng.random_range(lo..=hi)
}

/// Picks one of the asteroid colours.
pub fn roll_color(rng: &mut ThreadRng) -> (r: usize)
    ensures
        r < ASTEROID_COLOR_COUNT,
{
    roll(rng, 0, 11) as usize
}

/// Every lump count of `lumps` lies in `lo..=hi`.
pub open spec fn lumps_within(lumps: Seq<u32>, lo: int, hi: int) -> bool {
    forall|i: int| 0 <= i < lumps.len() ==> lo <= #[trigger] lumps[i] <= hi
}

/// The lumps of a whole asteroid from its draws: one lump carrying
/// `lump_pebbles` pebbles when the lump draw is 1, none otherwise.
pub open spec fn lumps_from_draws(lump_draw: u32, lump_pebbles: u32) -> Seq<u32> {
    if lump_draw == 1 {
        seq![lump_pebbles]
    } else {
        Seq::empty()
    }
}

/// Builds a whole asteroid's layout from its draws: the colour, the lump
/// draw (1 for one medium lump, anything else for none), the pebbles on that
/// lump, and the pebbles on the core.
pub fn asteroid_layout_from_draws(color: usize, lump_draw: u32, lump_pebbles: u32, pebbles: u32) -> (r: AsteroidLayout)
    ensures
        r.color == color,
        r.lumps@ == lumps_from_draws(lump_draw, lump_pebbles),
        r.pebbles == pebbles,
{
    let mut lumps: Vec<u32> = Vec::new();
    if lump_draw == 1 {
        lumps.push(lump_pebbles);
    }
    assert(lumps@ =~= lumps_from_draws(lump_draw, lump_pebbles));
    AsteroidLayout { color, lumps, pebbles }
}

/// The layout of a whole asteroid: a colour, a lump draw of 0 or 1, with 6
/// to 12 pebbles on the lump when there is one, and 12 to 24 pebbles on the
/// core, put together by `asteroid_layout_from_draws`.
pub fn roll_asteroid_layout(rng: &mut ThreadRng) -> (r: AsteroidLayout)
    ensures
        r.color < ASTEROID_COLOR_COUNT,
        exists|lump_draw: u32, lump_pebbles: u32|
            lump_draw <= 1 && 6 <= lump_pebbles <= 12 && #[trigger] lumps_from_draws(lump_draw, lump_pebbles)
                == r.lumps@,
        r.lumps.len() <= 1,
        lumps_within(r.lumps@, 6, 12),
        12 <= r.pebbles <= 24,
{
    let color = roll_color(rng);
    let n = roll(rng, 0, 1);
    let k = if n == 1 { roll(rng, 6, 12) } else { 6 };
    let pebbles = roll(rng, 12, 24);
    asteroid_layout_from_draws(color, n, k, pebbles)
}

/// The layout of a fragment scattered at the start of a round: no lump, and
/// 6 to 14 pebbles on the core.
pub fn roll_fragment_layout(rng: &mut ThreadRng) -> (r: AsteroidLayout)
    ensures
        r.color < ASTEROID_COLOR_COUNT,
        r.lumps.len() == 0,
        6 <= r.pebbles <= 14,
{
    let color = roll_color(rng);
    let pebbles = roll(rng, 6, 14);
    AsteroidLayout { color, lumps: Vec::new(), pebbles }
}

/// The layout of the fragment made from medium lumps: one lump with 8 to 16
/// pebbles, and 6 to 12 pebbles on the core.
pub fn roll_medium_fragment_layout(rng: &mut ThreadRng) -> (r: AsteroidLayout)
    ensures
        r.color < ASTEROID_COLOR_COUNT,
        r.lumps.len() == 1,
        lumps_within(r.lumps@, 8, 16),
        6 <= r.pebbles <= 12,
{
    let color = roll_color(rng);
    let k = roll(rng, 8, 16);
    let mut lumps: Vec<u32> = Vec::new();
    lumps.push(k);
    let pebbles = roll(rng, 6, 12);
    AsteroidLayout { color, lumps, pebbles }
}

/// The layout of the fragment made from the core: no lump, and 6 to 12
/// pebbles on the core.
pub fn roll_core_fragment_layout(rng: &mut ThreadRng) -> (r: AsteroidLayout)
    ensures
        r.color < ASTEROID_COLOR_COUNT,
        r.lumps.len() == 0,
        6 <= r.pebbles <= 12,
{
    let color = roll_color(rng);
    let pebbles = roll(rng, 6, 12);
    AsteroidLayout { color, lumps: Vec::new(), pebbles }
}


/// The pebbles on all the lumps of a layout.
pub open spec fn lump_pebble_total(lumps: Seq<u32>) -> int
    decreases lumps.len(),
{
    if lumps.len() == 0 {
        0
    } else {
        lump_pebble_total(lumps.drop_last()) + lumps.last()
    }
}

/// How many pieces an asteroid of this layout is built from: its core, each
/// lump, the pebbles on the lumps and the pebbles on the core.
pub open spec fn piece_count(l: AsteroidLayout) -> int {
    1 + l.lumps@.len() + lump_pebble_total(l.lumps@) + l.pebbles
}

/// Hit areas of an asteroid of this layout, as (core areas, medium areas):
/// the core is one capsule-shaped core area, each lump one spherical medium area.
pub open spec fn hit_areas(l: AsteroidLayout) -> (nat, nat) {
    (1, l.lumps@.len())
}

/// A fragment made by a break-up: it starts with `health` hit points and is
/// built after `layout`. Every asteroid made by a break-up is a fragment.
pub struct NewFragment {
    pub health: i64,
    pub layout: AsteroidLayout,
}

/// The fragments a break-up makes: one from the medium lumps, one from the core.
pub struct FragmentPlan {
    pub medium: Option<NewFragment>,
    pub core: Option<NewFragment>,
}

/// What a fragment made from medium lumps looks like: `FRAGMENT_HEALTH` hit
/// points; one core area and one medium area; a lump with 8 to 16 pebbles and
/// 6 to 12 pebbles on the core, so 16 to 30 pieces in all.
pub open spec fn medium_fragment_ok(f: NewFragment) -> bool {
    &&& f.health == FRAGMENT_HEALTH
    &&& f.layout.color < ASTEROID_COLOR_COUNT
    &&& f.layout.lumps.len() == 1
    &&& lumps_within(f.layout.lumps@, 8, 16)
    &&& 6 <= f.layout.pebbles <= 12
    &&& hit_areas(f.layout) == (1nat, 1nat)
    &&& 16 <= piece_count(f.layout) <= 30
}

/// What a fragment made from the core looks like: `FRAGMENT_HEALTH` hit
/// points; one core area and no medium area; no lump and 6 to 12 pebbles, so
/// 7 to 13 pieces in all.
pub open spec fn core_fragment_ok(f: NewFragment) -> bool {
    &&& f.health == FRAGMENT_HEALTH
    &&& f.layout.color < ASTEROID_COLOR_COUNT
    &&& f.layout.lumps.len() == 0
    &&& 6 <= f.layout.pebbles <= 12
    &&& hit_areas(f.layout) == (1nat, 0nat)
    &&& 7 <= piece_count(f.layout) <= 13
}

/// The fragments of a plan are exactly those the break-up calls for, each
/// as described by `medium_fragment_ok` and `core_fragment_ok`.
pub open spec fn plan_fits(b: Breakup, p: FragmentPlan) -> bool {
    &&& (p.medium is Some) == b.medium_fragment
    &&& (p.core is Some) == b.core_fragment
    &&& (p.medium matches Some(f) ==> medium_fragment_ok(f))
    &&& (p.core matches Some(f) ==> core_fragment_ok(f))
}

/// Makes the fragments of one break-up: first the one from the medium lumps,
/// if called for, then the one from the core, if called for.
pub fn roll_fragments(rng: &mut ThreadRng, b: Breakup) -> (r: FragmentPlan)
    ensures
        plan_fits(b, r),
{
    let medium = if b.medium_fragment {
        let layout = roll_medium_fragment_layout(rng);
        proof {
            reveal_with_fuel(lump_pebble_total, 2);
            assert(layout.lumps@.drop_last() =~= Seq::<u32>::empty());
            assert(layout.lumps@.last() == layout.lumps@[0]);
            assert(lump_pebble_total(layout.lumps@) == layout.lumps@[0]);
        }
        Some(NewFragment { health: FRAGMENT_HEALTH, layout })
    } else {
        None
    };
    let core = if b.core_fragment {
        let layout = roll_core_fragment_layout(rng);
        Some(NewFragment { health: FRAGMENT_HEALTH, layout })
    } else {
        None
    };
    FragmentPlan { medium, core }
}

/// Makes the fragments of every break-up of `split_asteroids`, in order: the
/// plan at each place belongs to the asteroid at that place and fits its break-up.
pub fn roll_split_fragments(rng: &mut ThreadRng, breakups: &Vec<(u64, Breakup)>) -> (r: Vec<(u64, FragmentPlan)>)
    ensures
        r.len() == breakups.len(),
        forall|i: int|
            0 <= i < breakups.len() ==> (#[trigger] r@[i]).0 == breakups@[i].0 && plan_fits(breakups@[i].1, r@[i].1),
{
    let mut r: Vec<(u64, FragmentPlan)> = Vec::new();
    let mut i: usize = 0;
    while i < breakups.len()
        invariant
            i <= breakups.len(),
            r.len() == i,
            forall|k: int| 0 <= k < i ==> (#[trigger] r@[k]).0 == breakups@[k].0 && plan_fits(breakups@[k].1, r@[k].1),
        decreases breakups.len() - i,
    {
        let (id, b) = breakups[i];
        let plan = roll_fragments(rng, b);
        r.push((id, plan));
        i = i + 1;
    }
    r
}

} // verus!
