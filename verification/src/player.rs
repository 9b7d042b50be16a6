use vstd::prelude::*;

verus! {

/// Hit points the player's ship starts with.
pub const PLAYER_MAX_HEALTH: i64 = 700;

/// The flight keys held down this frame.
#[derive(Clone, Copy, Debug, PartialEq, Eq, Structural)]
pub struct FlightKeys {
    pub w: bool,
    pub s: bool,
    pub a: bool,
    pub d: bool,
    pub q: bool,
    pub e: bool,
    pub shift: bool,
    pub ctrl: bool,
}

/// What the engine does this frame.
#[derive(Clone, Copy, Debug, PartialEq, Eq, Structural)]
pub enum Throttle {
    /// Shift: speed up.
    Accelerate,
    /// Ctrl without Shift: brake hard.
    Brake,
    /// Neither: slow down gently.
    Coast,
}

/// The turn the pilot asks for, each axis in -1, 0 or 1 (to be scaled by the
/// turn and roll rates): pitch up with W, down with S; yaw left with A, right
/// with D; roll left with Q, right with E. Opposite keys cancel out.
#[derive(Clone, Copy, Debug, PartialEq, Eq, Structural)]
pub struct TurnInput {
    pub pitch: i8,
    pub yaw: i8,
    pub roll: i8,
}

/// The pilot's controls for a frame.
#[derive(Clone, Copy, Debug, PartialEq, Eq, Structural)]
pub struct PlayerControls {
    pub turn: TurnInput,
    pub throttle: Throttle,
}

/// `1` for the positive key, `-1` for the negative one, `0` for both or none.
pub open spec fn axis_value(negative: bool, positive: bool) -> int {
    (if positive { 1int } else { 0int }) - (if negative { 1int } else { 0int })
}

fn axis(negative: bool, positive: bool) -> (r: i8)
    ensures
        r == axis_value(negative, positive),
{
    let p: i8 = if positive { 1 } else { 0 };
    let n: i8 = if negative { 1 } else { 0 };
    p - n
}

/// The controls the held keys give: the turn on each axis, and the throttle,
/// where Shift wins over Ctrl.
pub fn player_movement(keys: FlightKeys) -> (r: PlayerControls)
    ensures
        r.turn.pitch == axis_value(keys.w, keys.s),
        r.turn.yaw == axis_value(keys.d, keys.a),
        r.turn.roll == axis_value(keys.e, keys.q),
        r.throttle == (if keys.shift {
            Throttle::Accelerate
        } else if keys.ctrl {
            Throttle::Brake
        } else {
            Throttle::Coast
        }),
{
    let turn = TurnInput { pitch: axis(keys.w, keys.s), yaw: axis(keys.d, keys.a), roll: axis(keys.e, keys.q) };
    let throttle = if keys.shift {
        Throttle::Accelerate
    } else if keys.ctrl {
        Throttle::Brake
    } else {
        Throttle::Coast
    };
    PlayerControls { turn, throttle }
}

/// How many colours the player's ship palette has.
pub const PALETTE_SIZE: usize = 13;

/// One material of the player's ship to repaint.
#[derive(Clone, Copy, Debug, PartialEq, Eq, Structural)]
pub struct Tint {
    /// The material, by its order of discovery, and the palette colour it gets.
    pub slot: usize,
    /// The material also glows (the two lamp colours).
    pub glow: bool,
}

/// The tints for the first `count` materials found on the ship: material `i`
/// gets palette colour `i` while the palette lasts, and glows when it is the
/// sixth or the ninth.
pub open spec fn tints_for(count: nat) -> Seq<Tint> {
    Seq::new(
        if count < PALETTE_SIZE { count } else { PALETTE_SIZE as nat },
        |i: int| Tint { slot: i as usize, glow: i == 5 || i == 8 },
    )
}

/// Repaints the player's ship once: nothing is done after it has been done,
/// nor while the ship (or any material on it) is missing; otherwise the tints
/// are applied and the job is done.
pub fn apply_player_materials(done: &mut bool, player_found: bool, material_count: usize) -> (r: Option<Vec<Tint>>)
    ensures
        (*old(done) || !player_found || material_count == 0) ==> r is None && *final(done) == *old(done),
        !(*old(done) || !player_found || material_count == 0) ==> (r matches Some(v) && v@ == tints_for(
            material_count as nat,
        )) && *final(done),
{
    if *done || !player_found || material_count == 0 {
        return None;
    }
    let n = if material_count < PALETTE_SIZE { material_count } else { PALETTE_SIZE };
    let mut v: Vec<Tint> = Vec::new();
    let mut i: usize = 0;
    while i < n
        invariant
            i <= n,
            n == (if material_count < PALETTE_SIZE { material_count } else { PALETTE_SIZE }),
            v@ =~= tints_for(material_count as nat).take(i as int),
        decreases n - i,
    {
        v.push(Tint { slot: i, glow: i == 5 || i == 8 });
        i = i + 1;
    }
    *done = true;
    assert(v@ =~= tints_for(material_count as nat));
    Some(v)
}

/// The ship turns at most one step per axis, and holding both keys of an axis
/// leaves it still.
pub proof fn lemma_turn_bounded(neg: bool, pos: bool)
    ensures
        -1 <= axis_value(neg, pos) <= 1,
        neg && pos ==> axis_value(neg, pos) == 0,
{
}


/// Each turn axis in plain terms: +1 with only the positive key held, -1 with
/// only the negative one, 0 with both or neither.
pub proof fn lemma_axis_table(neg: bool, pos: bool)
    ensures
        pos && !neg ==> axis_value(neg, pos) == 1,
        neg && !pos ==> axis_value(neg, pos) == -1,
        (neg == pos) ==> axis_value(neg, pos) == 0,
{
}


/// The paint job in plain terms: the first thirteen materials found (or all,
/// when fewer) are repainted, material `i` with palette colour `i`, and only
/// the sixth and ninth glow.
pub proof fn lemma_tint_table(count: nat)
    ensures
        tints_for(count).len() == if count < 13 { count } else { 13 },
        forall|i: int| 0 <= i < tints_for(count).len() ==> (#[trigger] tints_for(count)[i]).slot == i,
        forall|i: int| 0 <= i < tints_for(count).len() ==> ((#[trigger] tints_for(count)[i]).glow <==> (i == 5 || i == 8)),
{
}

} // verus!
