use vstd::prelude::*;
use crate::asteroids::{breakup, AsteroidGroup};

verus! {

/// The asteroid field over a whole run, as far as lineage goes.
pub ghost struct Field {
    /// Every asteroid ever in the field, and whether it is a fragment.
    pub kind: Map<u64, bool>,
    /// The asteroids in play now.
    pub alive: Set<u64>,
    /// The fragments each asteroid gave rise to when it broke up.
    pub children: Map<u64, Set<u64>>,
}

/// One thing that happens to the field.
pub ghost enum FieldEvent {
    /// `split_asteroids` checks asteroid `id`, with `hp` hit points and these
    /// children groups; the fragments it makes (if any) get the ids `medium_id`
    /// and `core_id`, which the field has never held, and which differ.
    Split { id: u64, hp: int, groups: Seq<Option<AsteroidGroup>>, medium_id: u64, core_id: u64 },
    /// A new asteroid, whole or fragment, is spawned at the start of a round
    /// under an id the field has never held.
    Spawn { id: u64, fragment: bool },
    /// An asteroid leaves play some other way (it drifted out of the arena,
    /// or the round was cleared away).
    Despawn { id: u64 },
}

/// The field before the game starts.
pub open spec fn empty_field() -> Field {
    Field { kind: Map::empty(), alive: Set::empty(), children: Map::empty() }
}

/// The ids a break-up of this kind gives its new fragments.
pub open spec fn made_ids(medium: bool, core: bool, medium_id: u64, core_id: u64) -> Set<u64> {
    let a = if medium { Set::empty().insert(medium_id) } else { Set::empty() };
    if core { a.insert(core_id) } else { a }
}

/// What one event does to the field. Every asteroid a break-up makes is a
/// fragment; events with ids that do not fit (an id already used, an asteroid
/// not in play) change nothing.
pub open spec fn step(f: Field, e: FieldEvent) -> Field {
    match e {
        FieldEvent::Split { id, hp, groups, medium_id, core_id } => {
            if f.alive.contains(id) && f.kind.dom().contains(id) && !f.kind.dom().contains(medium_id)
                && !f.kind.dom().contains(core_id) && medium_id != core_id {
                match breakup(f.kind[id], hp, groups) {
                    Some(b) => {
                        let made = made_ids(b.medium_fragment, b.core_fragment, medium_id, core_id);
                        Field {
                            kind: Map::new(
                                |x: u64| f.kind.dom().contains(x) || made.contains(x),
                                |x: u64| if made.contains(x) { true } else { f.kind[x] },
                            ),
                            alive: f.alive.remove(id).union(made),
                            children: Map::new(
                                |x: u64| f.kind.dom().contains(x) || made.contains(x),
                                |x: u64|
                                    if x == id {
                                        made
                                    } else if made.contains(x) {
                                        Set::empty()
                                    } else {
                                        f.children[x]
                                    },
                            ),
                        }
                    },
                    None => f,
                }
            } else {
                f
            }
        },
        FieldEvent::Spawn { id, fragment } => {
            if !f.kind.dom().contains(id) {
                Field {
                    kind: f.kind.insert(id, fragment),
                    alive: f.alive.insert(id),
                    children: f.children.insert(id, Set::empty()),
                }
            } else {
                f
            }
        },
        FieldEvent::Despawn { id } => Field { alive: f.alive.remove(id), ..f },
    }
}

/// The field after a run of events, from `f`.
pub open spec fn run(f: Field, events: Seq<FieldEvent>) -> Field
    decreases events.len(),
{
    if events.len() == 0 {
        f
    } else {
        step(run(f, events.drop_last()), events.last())
    }
}

/// The lineage facts that hold at every point of a run: every asteroid gave
/// rise to at most two fragments; a fragment gave rise to none; an asteroid
/// still in play has given rise to none yet; and whatever a break-up made is
/// a fragment.
pub open spec fn lineage_holds(f: Field) -> bool {
    &&& f.alive.subset_of(f.kind.dom())
    &&& f.children.dom() == f.kind.dom()
    &&& forall|id: u64| #[trigger] f.kind.dom().contains(id) ==> {
        &&& f.children[id].finite()
        &&& f.children[id].len() <= 2
        &&& f.kind[id] ==> f.children[id] == Set::<u64>::empty()
        &&& f.alive.contains(id) ==> f.children[id] == Set::<u64>::empty()
    }
    &&& forall|id: u64, x: u64|
        f.kind.dom().contains(id) && #[trigger] f.children[id].contains(x) ==> f.kind.dom().contains(x)
            && f.kind[x]
}

proof fn lemma_made_ids(medium: bool, core: bool, m: u64, c: u64)
    requires
        m != c,
    ensures
        made_ids(medium, core, m, c).finite(),
        made_ids(medium, core, m, c).len() <= 2,
        forall|x: u64| #[trigger] made_ids(medium, core, m, c).contains(x) ==> (x == m && medium) || (x == c && core),
        !medium && !core ==> made_ids(medium, core, m, c) == Set::<u64>::empty(),
{
    let a = if medium { Set::<u64>::empty().insert(m) } else { Set::<u64>::empty() };
    assert(a.len() <= 1);
    if !medium && !core {
        assert(made_ids(medium, core, m, c) =~= Set::<u64>::empty());
    }
}

proof fn lemma_step_keeps_lineage(f: Field, e: FieldEvent)
    requires
        lineage_holds(f),
    ensures
        lineage_holds(step(f, e)),
{
    match e {
        FieldEvent::Split { id, hp, groups, medium_id, core_id } => {
            if f.alive.contains(id) && f.kind.dom().contains(id) && !f.kind.dom().contains(medium_id)
                && !f.kind.dom().contains(core_id) && medium_id != core_id {
                match breakup(f.kind[id], hp, groups) {
                    Some(b) => {
                        let made = made_ids(b.medium_fragment, b.core_fragment, medium_id, core_id);
                        lemma_made_ids(b.medium_fragment, b.core_fragment, medium_id, core_id);
                        let g = step(f, e);
                        assert(g.kind.dom() =~= f.kind.dom().union(made));
                        assert(g.children.dom() =~= f.kind.dom().union(made));
                        assert(!made.contains(id));
                        assert(g.alive.subset_of(g.kind.dom()));
                        assert forall|x: u64| #[trigger] g.kind.dom().contains(x) implies {
                            &&& g.children[x].finite()
                            &&& g.children[x].len() <= 2
                            &&& g.kind[x] ==> g.children[x] == Set::<u64>::empty()
                            &&& g.alive.contains(x) ==> g.children[x] == Set::<u64>::empty()
                        } by {
                            if x == id {
                                assert(g.children[x] == made);
                                if f.kind[id] {
                                    assert(!b.medium_fragment && !b.core_fragment);
                                }
                            } else if made.contains(x) {
                                assert(g.children[x] == Set::<u64>::empty());
                            } else {
                                assert(f.kind.dom().contains(x));
                                assert(g.children[x] == f.children[x]);
                            }
                        }
                        assert forall|y: u64, x: u64|
                            g.kind.dom().contains(y) && #[trigger] g.children[y].contains(x) implies g.kind.dom().contains(x)
                            && g.kind[x] by {
                            if y == id {
                                assert(made.contains(x));
                            } else if made.contains(y) {
                                assert(g.children[y] == Set::<u64>::empty());
                            } else {
                                assert(g.children[y] == f.children[y]);
                                assert(f.children[y].contains(x));
                                assert(!made.contains(x));
                            }
                        }
                    },
                    None => {},
                }
            }
        },
        FieldEvent::Spawn { id, fragment } => {
            if !f.kind.dom().contains(id) {
                let g = step(f, e);
                assert(g.children.dom() =~= g.kind.dom());
                assert forall|x: u64| #[trigger] g.kind.dom().contains(x) implies {
                    &&& g.children[x].finite()
                    &&& g.children[x].len() <= 2
                    &&& g.kind[x] ==> g.children[x] == Set::<u64>::empty()
                    &&& g.alive.contains(x) ==> g.children[x] == Set::<u64>::empty()
                } by {
                    if x != id {
                        assert(f.kind.dom().contains(x));
                    }
                }
                assert forall|y: u64, x: u64|
                    g.kind.dom().contains(y) && #[trigger] g.children[y].contains(x) implies g.kind.dom().contains(x)
                    && g.kind[x] by {
                    if y != id {
                        assert(f.children[y].contains(x));
                        assert(f.kind.dom().contains(x));
                        assert(x != id);
                    }
                }
            }
        },
        FieldEvent::Despawn { id } => {},
    }
}

/// Over a whole run, whatever the other systems of the game do in between,
/// every asteroid made by a break-up is a fragment, a fragment never breaks up
/// into anything, and each asteroid gives rise to at most two fragments.
pub proof fn lemma_at_most_two_fragments_per_asteroid(events: Seq<FieldEvent>)
    ensures
        lineage_holds(run(empty_field(), events)),
    decreases events.len(),
{
    if events.len() == 0 {
        assert(empty_field().children.dom() =~= empty_field().kind.dom());
    } else {
        lemma_at_most_two_fragments_per_asteroid(events.drop_last());
        lemma_step_keeps_lineage(run(empty_field(), events.drop_last()), events.last());
    }
}

} // verus!
