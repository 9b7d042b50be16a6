use vstd::prelude::*;

verus! {

/// The character of a decimal digit.
pub open spec fn digit_char(d: nat) -> char {
    (48 + d) as char
}

/// The decimal writing of a natural number, without leading zeros.
pub open spec fn decimal(n: nat) -> Seq<char>
    decreases n,
{
    if n < 10 {
        seq![digit_char(n)]
    } else {
        decimal(n / 10).push(digit_char(n % 10))
    }
}

/// The decimal writing of an integer, with a minus sign when negative.
pub open spec fn signed_decimal(v: int) -> Seq<char> {
    if v < 0 {
        seq!['-'] + decimal((-v) as nat)
    } else {
        decimal(v as nat)
    }
}

fn digit_str(d: u64) -> (r: &'static str)
    requires
        d < 10,
    ensures
        r@ == seq![digit_char(d as nat)],
{
    proof {
        reveal_strlit("0");
        reveal_strlit("1");
        reveal_strlit("2");
        reveal_strlit("3");
        reveal_strlit("4");
        reveal_strlit("5");
        reveal_strlit("6");
        reveal_strlit("7");
        reveal_strlit("8");
        reveal_strlit("9");
    }
    let r = if d == 0 {
        "0"
    } else if d == 1 {
        "1"
    } else if d == 2 {
        "2"
    } else if d == 3 {
        "3"
    } else if d == 4 {
        "4"
    } else if d == 5 {
        "5"
    } else if d == 6 {
        "6"
    } else if d == 7 {
        "7"
    } else if d == 8 {
        "8"
    } else {
        "9"
    };
    assert(r@ =~= seq![digit_char(d as nat)]);
    r
}

/// Appends the decimal writing of `n`.
pub fn push_decimal(s: &mut String, n: u64)
    ensures
        final(s)@ == old(s)@ + decimal(n as nat),
    decreases n,
{
    if n >= 10 {
        push_decimal(s, n / 10);
    }
    let d = digit_str(n % 10);
    s.append(d);
    assert(final(s)@ =~= old(s)@ + decimal(n as nat));
}

/// Appends the decimal writing of `v`, with a minus sign when negative.
pub fn push_signed_decimal(s: &mut String, v: i64)
    ensures
        final(s)@ == old(s)@ + signed_decimal(v as int),
{
    if v < 0 {
        proof {
            reveal_strlit("-");
        }
        s.append("-");
        let m: u64 = (-(v + 1)) as u64 + 1;
        push_decimal(s, m);
        assert(final(s)@ =~= old(s)@ + signed_decimal(v as int));
    } else {
        push_decimal(s, v as u64);
    }
}

/// The player's health line: `Health: ` and the hit points.
pub fn health_text(hp: i64) -> (r: String)
    ensures
        r@ == "Health: "@ + signed_decimal(hp as int),
{
    let mut s = String::from_str("Health: ");
    push_signed_decimal(&mut s, hp);
    s
}

/// The enemy's line: `Enemy: ` and its hit points, or `Enemy: DESTROYED`
/// once it is gone.
pub fn enemy_text(enemy_hp: Option<i64>) -> (r: String)
    ensures
        r@ == (match enemy_hp {
            Some(hp) => "Enemy: "@ + signed_decimal(hp as int),
            None => "Enemy: DESTROYED"@,
        }),
{
    match enemy_hp {
        Some(hp) => {
            let mut s = String::from_str("Enemy: ");
            push_signed_decimal(&mut s, hp);
            s
        },
        None => String::from_str("Enemy: DESTROYED"),
    }
}

/// The UFO line: `UFOs: ` and how many are in play.
pub fn ufo_text(count: usize) -> (r: String)
    ensures
        r@ == "UFOs: "@ + decimal(count as nat),
{
    let mut s = String::from_str("UFOs: ");
    push_decimal(&mut s, count as u64);
    s
}

/// The HUD lines for a frame.
pub struct HudTexts {
    /// The health line, when there is a player; otherwise the line is left as it is.
    pub health: Option<String>,
    pub enemy: String,
    pub ufos: String,
}

/// The HUD for a frame, from the player's hit points (when there is a
/// player), the enemy's (when it is still there) and the number of UFOs.
pub fn update_hud(player_hp: Option<i64>, enemy_hp: Option<i64>, ufo_count: usize) -> (r: HudTexts)
    ensures
        match player_hp {
            Some(hp) => r.health matches Some(t) && t@ == "Health: "@ + signed_decimal(hp as int),
            None => r.health is None,
        },
        r.enemy@ == (match enemy_hp {
            Some(hp) => "Enemy: "@ + signed_decimal(hp as int),
            None => "Enemy: DESTROYED"@,
        }),
        r.ufos@ == "UFOs: "@ + decimal(ufo_count as nat),
{
    let health = match player_hp {
        Some(hp) => Some(health_text(hp)),
        None => None,
    };
    HudTexts { health, enemy: enemy_text(enemy_hp), ufos: ufo_text(ufo_count) }
}


/// Reads a string of decimal digits back as a number (the most significant
/// digit first).
pub open spec fn digits_value(s: Seq<char>) -> int
    decreases s.len(),
{
    if s.len() == 0 {
        0
    } else {
        digits_value(s.drop_last()) * 10 + (s.last() as int - 48)
    }
}

/// What the HUD writes for a number reads back as that number; every
/// character is a decimal digit, and there is no leading zero.
pub proof fn lemma_decimal_reads_back(n: nat)
    ensures
        digits_value(decimal(n)) == n,
        forall|i: int| 0 <= i < decimal(n).len() ==> '0' <= #[trigger] decimal(n)[i] <= '9',
        decimal(n).len() >= 1,
        decimal(n).len() > 1 ==> decimal(n)[0] != '0',
    decreases n,
{
    let d = decimal(n);
    if n < 10 {
        assert(d.drop_last() =~= Seq::<char>::empty());
        assert(digits_value(d.drop_last()) == 0);
        assert(d.last() as int == 48 + n);
    } else {
        let q = (n / 10) as nat;
        lemma_decimal_reads_back(q);
        assert(d.drop_last() =~= decimal(q));
        assert(d.last() as int == 48 + n % 10);
        assert(digits_value(d) == digits_value(decimal(q)) * 10 + n % 10);
        if decimal(q).len() == 1 {
            assert(q < 10) by {
                if q >= 10 {
                    lemma_decimal_reads_back((q / 10) as nat);
                    assert(decimal(q).drop_last() =~= decimal((q / 10) as nat));
                }
            }
            assert(d[0] as int == 48 + q);
        }
        assert(d[0] == decimal(q)[0]);
        assert forall|i: int| 0 <= i < d.len() implies '0' <= #[trigger] d[i] <= '9' by {
            if i < d.len() - 1 {
                assert(d[i] == decimal(q)[i]);
            }
        }
    }
}

/// A negative number is written with a minus sign and then its magnitude.
pub proof fn lemma_signed_decimal(v: int)
    ensures
        v < 0 ==> signed_decimal(v)[0] == '-' && signed_decimal(v).drop_first() == decimal((-v) as nat),
        v >= 0 ==> signed_decimal(v) == decimal(v as nat),
{
    if v < 0 {
        assert((seq!['-'] + decimal((-v) as nat)).drop_first() =~= decimal((-v) as nat));
    }
}

} // verus!
