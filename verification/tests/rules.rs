use asteroid_shooter::asteroids::{
    asteroid_layout_from_draws, plan_breakup, roll_fragments, roll_split_fragments, roll_asteroid_layout, roll_color, roll_core_fragment_layout, roll_fragment_layout,
    roll_medium_fragment_layout, split_asteroids, AsteroidBody, AsteroidGroup, Breakup,
    ASTEROID_COLOR_COUNT,
};
use asteroid_shooter::debug::{toggle_debug_colliders, DebugColliders};
use asteroid_shooter::enemy::{
    check_enemy_health_flags, flank_offsets, turret_offsets, EnemyCheck, EnemyFlags, UfoWave, ENEMY_MAX_HEALTH,
};
use asteroid_shooter::hud::{enemy_text, health_text, push_decimal, ufo_text, update_hud};
use asteroid_shooter::player::{apply_player_materials, player_movement, FlightKeys, Throttle, Tint, PLAYER_MAX_HEALTH};
use asteroid_shooter::state::{
    check_victory, menu_interaction, next_state, restart_game, GameState, MenuButton, StateRequest,
};

#[test]
fn starting_values() {
    assert_eq!(PLAYER_MAX_HEALTH, 700);
    assert_eq!(ENEMY_MAX_HEALTH, 3000);
    assert_eq!(GameState::default(), GameState::MainMenu);
    let f = EnemyFlags::default();
    assert!(!f.flag_2100_triggered && !f.flag_1200_triggered);
}

#[test]
fn checkpoints_fire_once_each() {
    let mut flags = EnemyFlags::default();
    assert_eq!(check_enemy_health_flags(&mut flags, 2500), EnemyCheck::Alive { ring: false, flanks: false });
    assert_eq!(check_enemy_health_flags(&mut flags, 2100), EnemyCheck::Alive { ring: true, flanks: false });
    assert_eq!(check_enemy_health_flags(&mut flags, 2000), EnemyCheck::Alive { ring: false, flanks: false });
    assert_eq!(check_enemy_health_flags(&mut flags, 1200), EnemyCheck::Alive { ring: false, flanks: true });
    assert_eq!(check_enemy_health_flags(&mut flags, 500), EnemyCheck::Alive { ring: false, flanks: false });
    assert_eq!(check_enemy_health_flags(&mut flags, 0), EnemyCheck::Destroyed);
    assert!(flags.flag_2100_triggered && flags.flag_1200_triggered);
}

#[test]
fn deep_hit_calls_both_waves() {
    let mut flags = EnemyFlags::default();
    assert_eq!(check_enemy_health_flags(&mut flags, 1000), EnemyCheck::Alive { ring: true, flanks: true });
    assert_eq!(UfoWave::Ring.ufo_count() + UfoWave::Flanks.ufo_count(), 8);
}

#[test]
fn destroyed_enemy_keeps_its_flags() {
    let mut flags = EnemyFlags::default();
    assert_eq!(check_enemy_health_flags(&mut flags, -5), EnemyCheck::Destroyed);
    assert_eq!(flags, EnemyFlags::default());
}

#[test]
fn flank_wave_three_each_side() {
    let offsets = flank_offsets();
    assert_eq!(offsets.len(), 6);
    assert_eq!(offsets.iter().filter(|o| o.0 < 0).count(), 3);
    assert_eq!(offsets.iter().filter(|o| o.0 > 0).count(), 3);
    assert_eq!(offsets[0], (-45, 0, -20));
    assert_eq!(offsets[5], (5, 0, 20));
}

#[test]
fn screens_follow_requests() {
    assert_eq!(next_state(GameState::MainMenu, &vec![StateRequest::StartGame]), GameState::Playing);
    assert_eq!(next_state(GameState::MainMenu, &vec![StateRequest::Lose, StateRequest::Win]), GameState::MainMenu);
    assert_eq!(next_state(GameState::Playing, &vec![StateRequest::Lose]), GameState::Defeat);
    assert_eq!(next_state(GameState::Playing, &vec![StateRequest::Lose, StateRequest::Win]), GameState::Victory);
    assert_eq!(next_state(GameState::Playing, &vec![StateRequest::Win, StateRequest::Lose]), GameState::Defeat);
    assert_eq!(next_state(GameState::Playing, &vec![StateRequest::Restart, StateRequest::StartGame]), GameState::Playing);
    assert_eq!(next_state(GameState::Victory, &vec![StateRequest::Lose]), GameState::Victory);
    assert_eq!(next_state(GameState::Victory, &vec![StateRequest::Restart]), GameState::Restarting);
    assert_eq!(next_state(GameState::Defeat, &vec![StateRequest::Restart]), GameState::Restarting);
    assert_eq!(next_state(GameState::Restarting, &vec![StateRequest::Resume]), GameState::Playing);
    assert_eq!(next_state(GameState::Defeat, &vec![]), GameState::Defeat);
}

#[test]
fn victory_needs_no_enemy() {
    assert_eq!(check_victory(0), Some(StateRequest::Win));
    assert_eq!(check_victory(1), None);
    assert_eq!(restart_game(true), Some(StateRequest::Restart));
    assert_eq!(restart_game(false), None);
}

#[test]
fn menu_buttons() {
    let play = MenuButton { pressed: true, is_play: true, is_quit: false };
    let quit = MenuButton { pressed: true, is_play: false, is_quit: true };
    let hover = MenuButton { pressed: false, is_play: true, is_quit: false };
    let r = menu_interaction(&vec![hover]);
    assert!(!r.start && !r.quit);
    let r = menu_interaction(&vec![hover, play]);
    assert!(r.start && !r.quit);
    let r = menu_interaction(&vec![quit]);
    assert!(!r.start && r.quit);
}

#[test]
fn hud_lines() {
    assert_eq!(health_text(700), "Health: 700");
    assert_eq!(health_text(-15), "Health: -15");
    assert_eq!(health_text(0), "Health: 0");
    assert_eq!(health_text(i64::MIN), format!("Health: {}", i64::MIN));
    assert_eq!(enemy_text(Some(2950)), "Enemy: 2950");
    assert_eq!(enemy_text(None), "Enemy: DESTROYED");
    assert_eq!(ufo_text(8), "UFOs: 8");
    let mut s = String::new();
    push_decimal(&mut s, 1200);
    assert_eq!(s, "1200");
    let hud = update_hud(None, None, 0);
    assert!(hud.health.is_none());
    assert_eq!(hud.enemy, "Enemy: DESTROYED");
    assert_eq!(hud.ufos, "UFOs: 0");
    let hud = update_hud(Some(680), Some(3000), 2);
    assert_eq!(hud.health.as_deref(), Some("Health: 680"));
    assert_eq!(hud.enemy, "Enemy: 3000");
    assert_eq!(hud.ufos, "UFOs: 2");
}

#[test]
fn breakups() {
    let groups = vec![Some(AsteroidGroup::Core), None, Some(AsteroidGroup::Medium(0)), Some(AsteroidGroup::Medium(0))];
    assert_eq!(plan_breakup(false, 5, &groups), None);
    assert_eq!(plan_breakup(false, 0, &groups), Some(Breakup { medium_fragment: true, core_fragment: true }));
    assert_eq!(plan_breakup(false, -3, &vec![Some(AsteroidGroup::Core)]), Some(Breakup { medium_fragment: false, core_fragment: true }));
    assert_eq!(plan_breakup(false, 0, &vec![None]), Some(Breakup { medium_fragment: false, core_fragment: false }));
    assert_eq!(plan_breakup(true, 0, &groups), Some(Breakup { medium_fragment: false, core_fragment: false }));

    let fragments = vec![
        AsteroidBody { id: 1, health: 0, is_fragment: true, groups: vec![] },
        AsteroidBody { id: 2, health: 30, is_fragment: true, groups: vec![] },
    ];
    let wholes = vec![
        AsteroidBody { id: 3, health: 40, is_fragment: false, groups: groups.clone() },
        AsteroidBody { id: 4, health: -1, is_fragment: false, groups: vec![Some(AsteroidGroup::Medium(0))] },
    ];
    assert_eq!(
        split_asteroids(&fragments, &wholes),
        vec![
            (1, Breakup { medium_fragment: false, core_fragment: false }),
            (4, Breakup { medium_fragment: true, core_fragment: false }),
        ]
    );
}

#[test]
fn layouts_stay_in_range() {
    let mut rng = rand::rng();
    for _ in 0..200 {
        assert!(roll_color(&mut rng) < ASTEROID_COLOR_COUNT);
        let a = roll_asteroid_layout(&mut rng);
        assert!(a.color < 12 && a.lumps.len() <= 1 && (12..=24).contains(&a.pebbles));
        assert!(a.lumps.iter().all(|k| (6..=12).contains(k)));
        let f = roll_fragment_layout(&mut rng);
        assert!(f.lumps.is_empty() && (6..=14).contains(&f.pebbles));
        let m = roll_medium_fragment_layout(&mut rng);
        assert!(m.lumps.len() == 1 && (8..=16).contains(&m.lumps[0]) && (6..=12).contains(&m.pebbles));
        let c = roll_core_fragment_layout(&mut rng);
        assert!(c.lumps.is_empty() && (6..=12).contains(&c.pebbles));
    }
}

#[test]
fn flight_controls() {
    let none = FlightKeys { w: false, s: false, a: false, d: false, q: false, e: false, shift: false, ctrl: false };
    let c = player_movement(none);
    assert_eq!((c.turn.pitch, c.turn.yaw, c.turn.roll), (0, 0, 0));
    assert_eq!(c.throttle, Throttle::Coast);
    let c = player_movement(FlightKeys { w: true, a: true, q: true, ctrl: true, ..none });
    assert_eq!((c.turn.pitch, c.turn.yaw, c.turn.roll), (-1, 1, 1));
    assert_eq!(c.throttle, Throttle::Brake);
    let c = player_movement(FlightKeys { s: true, d: true, e: true, shift: true, ctrl: true, ..none });
    assert_eq!((c.turn.pitch, c.turn.yaw, c.turn.roll), (1, -1, -1));
    assert_eq!(c.throttle, Throttle::Accelerate);
    let c = player_movement(FlightKeys { w: true, s: true, ..none });
    assert_eq!(c.turn.pitch, 0);
}

#[test]
fn ship_repainted_once() {
    let mut done = false;
    assert_eq!(apply_player_materials(&mut done, false, 5), None);
    assert!(!done);
    assert_eq!(apply_player_materials(&mut done, true, 0), None);
    assert!(!done);
    let tints = apply_player_materials(&mut done, true, 20).unwrap();
    assert!(done);
    assert_eq!(tints.len(), 13);
    assert_eq!(tints[5], Tint { slot: 5, glow: true });
    assert_eq!(tints[8], Tint { slot: 8, glow: true });
    assert_eq!(tints[7], Tint { slot: 7, glow: false });
    assert_eq!(apply_player_materials(&mut done, true, 20), None);
    let mut again = false;
    assert_eq!(apply_player_materials(&mut again, true, 3).unwrap().len(), 3);
}

#[test]
fn debug_toggle() {
    let mut d = DebugColliders(false);
    toggle_debug_colliders(&mut d, false);
    assert!(!d.0);
    toggle_debug_colliders(&mut d, true);
    assert!(d.0);
    toggle_debug_colliders(&mut d, true);
    assert!(!d.0);
}

#[test]
fn four_turrets() {
    assert_eq!(turret_offsets(), vec![(-3, 6, -10), (3, 6, -10), (-3, 6, 10), (3, 6, 10)]);
}

#[test]
fn layouts_vary() {
    let mut rng = rand::rng();
    let draws: Vec<u32> = (0..200).map(|_| roll_asteroid_layout(&mut rng).pebbles).collect();
    assert!(draws.iter().any(|p| *p > 12));
    assert!(draws.iter().any(|p| *p < 24));
    let colors: Vec<usize> = (0..200).map(|_| roll_color(&mut rng)).collect();
    assert!(colors.iter().any(|c| *c > 0));
}

#[test]
fn layout_from_draws() {
    let one = asteroid_layout_from_draws(3, 1, 9, 20);
    assert_eq!((one.color, one.lumps.clone(), one.pebbles), (3, vec![9], 20));
    let none = asteroid_layout_from_draws(11, 0, 9, 12);
    assert_eq!((none.color, none.lumps.clone(), none.pebbles), (11, vec![], 12));
}

#[test]
fn fragments_follow_breakups() {
    let mut rng = rand::rng();
    for _ in 0..100 {
        let both = roll_fragments(&mut rng, Breakup { medium_fragment: true, core_fragment: true });
        let m = both.medium.expect("medium fragment");
        let c = both.core.expect("core fragment");
        assert_eq!((m.health, c.health), (60, 60));
        assert_eq!(m.layout.lumps.len(), 1);
        assert!((8..=16).contains(&m.layout.lumps[0]) && (6..=12).contains(&m.layout.pebbles));
        let pieces = 1 + 1 + m.layout.lumps[0] + m.layout.pebbles;
        assert!((16..=30).contains(&pieces));
        assert!(c.layout.lumps.is_empty() && (6..=12).contains(&c.layout.pebbles));
        let none = roll_fragments(&mut rng, Breakup { medium_fragment: false, core_fragment: false });
        assert!(none.medium.is_none() && none.core.is_none());
    }
    let plans = roll_split_fragments(
        &mut rng,
        &vec![(7, Breakup { medium_fragment: false, core_fragment: true }), (9, Breakup { medium_fragment: true, core_fragment: false })],
    );
    assert_eq!(plans.len(), 2);
    assert_eq!(plans[0].0, 7);
    assert!(plans[0].1.medium.is_none() && plans[0].1.core.is_some());
    assert_eq!(plans[1].0, 9);
    assert!(plans[1].1.medium.is_some() && plans[1].1.core.is_none());
}
