use asteroid_shooter::collisions::{
    asteroid_hits_asteroid, check_ufo_destroyed, contains_id, count_hits, enemy_laser_hits_player,
    player_hits_asteroid, player_hits_ufo, player_laser_hits_asteroid, player_laser_hits_enemy,
    player_laser_hits_ufo, strikes_by_body, strikes_by_collider, touch_count, ufo_hits_asteroid,
    ufo_laser_hits_player, unit_ids, ContactEvent,
};
use asteroid_shooter::health::{bump, is_destroyed, take_damage, take_repeated_damage};

fn ev(c1: u64, c2: u64, b1: Option<u64>, b2: Option<u64>) -> ContactEvent {
    ContactEvent { collider1: c1, collider2: c2, body1: b1, body2: b2 }
}

#[test]
fn damage_subtracts_exactly() {
    assert_eq!(take_damage(700, 25), 675);
    assert_eq!(take_damage(10, 25), -15);
    assert_eq!(take_damage(i64::MIN + 3, 10), i64::MIN);
}

#[test]
fn repeated_damage_sums_up() {
    assert_eq!(take_repeated_damage(3000, 10, 7), 2930);
    assert_eq!(take_repeated_damage(50, 10, 0), 50);
    assert_eq!(take_repeated_damage(take_repeated_damage(100, 15, 2), 15, 3), take_repeated_damage(100, 15, 5));
}

#[test]
fn destroyed_at_zero_or_below() {
    assert!(is_destroyed(0));
    assert!(is_destroyed(-1));
    assert!(!is_destroyed(1));
}

#[test]
fn bump_takes_at_most_what_is_left() {
    assert_eq!(bump(40, 15), 25);
    assert_eq!(bump(15, 15), 0);
    assert_eq!(bump(5, 15), 0);
    assert_eq!(bump(-5, 15), 0);
}

#[test]
fn id_lookup() {
    let ids = vec![3u64, 9, 12];
    assert!(contains_id(&ids, 9));
    assert!(!contains_id(&ids, 4));
    assert_eq!(unit_ids(&vec![(5, 10), (7, -2)]), vec![5, 7]);
}

#[test]
fn crash_into_asteroid_loses() {
    let players = vec![1u64];
    let asteroids = vec![50u64, 51];
    // player collider first: the far body is body2
    assert!(player_hits_asteroid(&vec![ev(1, 70, Some(1), Some(50))], &players, &asteroids));
    // player collider second: the far body is body1
    assert!(player_hits_asteroid(&vec![ev(70, 1, Some(51), Some(1))], &players, &asteroids));
    // the far body is not an asteroid
    assert!(!player_hits_asteroid(&vec![ev(1, 70, Some(1), Some(99))], &players, &asteroids));
    // no body on the far side
    assert!(!player_hits_asteroid(&vec![ev(1, 70, Some(1), None)], &players, &asteroids));
    // the player is not involved
    assert!(!player_hits_asteroid(&vec![ev(50, 51, Some(50), Some(51))], &players, &asteroids));
}

#[test]
fn crash_into_ufo_loses() {
    let players = vec![1u64];
    let ufos = vec![20u64];
    assert!(player_hits_ufo(&vec![ev(1, 20, None, None)], &players, &ufos));
    assert!(player_hits_ufo(&vec![ev(5, 6, None, None), ev(20, 1, None, None)], &players, &ufos));
    assert!(!player_hits_ufo(&vec![ev(1, 21, None, None)], &players, &ufos));
    assert!(!player_hits_ufo(&vec![], &players, &ufos));
}

#[test]
fn player_lasers_wear_down_asteroids() {
    let lasers = vec![100u64, 101, 102];
    let mut asteroids = vec![(50u64, 40i64), (51, 60)];
    let events = vec![
        ev(100, 7, None, Some(50)),
        ev(8, 101, Some(50), None),
        ev(102, 9, None, Some(77)),
        ev(3, 4, Some(50), Some(51)),
    ];
    let strikes = player_laser_hits_asteroid(&events, &lasers, &mut asteroids, 10);
    assert_eq!(strikes, vec![(100, 50), (101, 50)]);
    assert_eq!(asteroids, vec![(50, 20), (51, 60)]);
}

#[test]
fn strike_lists_by_collider_and_by_body() {
    let lasers = vec![100u64];
    let targets = vec![9u64];
    let events = vec![ev(100, 9, None, None), ev(9, 100, None, None), ev(100, 8, None, Some(9))];
    assert_eq!(strikes_by_collider(&events, &lasers, &targets), vec![(100, 9), (100, 9)]);
    assert_eq!(strikes_by_body(&events, &lasers, &targets), vec![(100, 9)]);
    assert_eq!(count_hits(9, &vec![(1, 9), (2, 8), (3, 9)]), 2);
}

#[test]
fn player_lasers_hit_enemy_and_ufos() {
    let lasers = vec![100u64, 101];
    let mut enemies = vec![(30u64, 3000i64)];
    let events = vec![ev(100, 30, None, None), ev(30, 101, None, None), ev(100, 31, None, None)];
    let strikes = player_laser_hits_enemy(&events, &lasers, &mut enemies, 25);
    assert_eq!(strikes, vec![(100, 30), (101, 30)]);
    assert_eq!(enemies, vec![(30, 2950)]);

    let mut ufos = vec![(40u64, 100i64), (41, 100)];
    let strikes = player_laser_hits_ufo(&vec![ev(41, 100, None, None)], &lasers, &mut ufos, 25);
    assert_eq!(strikes, vec![(100, 41)]);
    assert_eq!(ufos, vec![(40, 100), (41, 75)]);
}

#[test]
fn hostile_lasers_can_end_the_game() {
    let lasers = vec![200u64, 201];
    let mut players = vec![(1u64, 30i64)];
    let hit = enemy_laser_hits_player(&vec![ev(200, 1, None, None)], &lasers, &mut players, 20);
    assert_eq!(hit.strikes, vec![(200, 1)]);
    assert!(!hit.defeated);
    assert_eq!(players, vec![(1, 10)]);

    let hit = ufo_laser_hits_player(&vec![ev(1, 201, None, None)], &lasers, &mut players, 20);
    assert!(hit.defeated);
    assert_eq!(players, vec![(1, -10)]);

    // not struck this frame: no new defeat, even at zero
    let mut down = vec![(1u64, 0i64)];
    let hit = ufo_laser_hits_player(&vec![], &lasers, &mut down, 20);
    assert!(!hit.defeated);
}

#[test]
fn ufo_takes_asteroid_damage_only_when_alone() {
    let asteroids = vec![50u64];
    let events = vec![ev(20, 9, None, Some(50)), ev(9, 20, Some(50), None), ev(20, 9, None, Some(51))];
    assert_eq!(touch_count(&events, &vec![20], &asteroids), 2);
    let hit = ufo_hits_asteroid(&events, &vec![20], &asteroids, 100, false, 15);
    assert_eq!(hit.hits, 2);
    assert_eq!(hit.health, 70);
    assert!(hit.start_recovery);
    let hit = ufo_hits_asteroid(&events, &vec![20], &asteroids, 100, true, 15);
    assert!(!hit.start_recovery);
    let hit = ufo_hits_asteroid(&events, &vec![20, 21], &asteroids, 100, false, 15);
    assert_eq!(hit.hits, 0);
    assert_eq!(hit.health, 100);
    assert!(!hit.start_recovery);
}

#[test]
fn asteroid_collisions_never_go_negative() {
    let mut asteroids = vec![(50u64, 40i64), (51, 10), (52, 60)];
    let events = vec![
        ev(1, 2, Some(50), Some(51)),
        ev(3, 4, Some(51), Some(52)),
        ev(5, 6, Some(52), Some(52)),
        ev(7, 8, Some(50), None),
        ev(9, 10, Some(50), Some(99)),
    ];
    let pairs = asteroid_hits_asteroid(&events, &mut asteroids, 15);
    assert_eq!(pairs, vec![(50, 51), (51, 52)]);
    assert_eq!(asteroids, vec![(50, 25), (51, 0), (52, 45)]);
}

#[test]
fn destroyed_ufos_are_listed() {
    let ufos = vec![(40u64, 5i64), (41, 0), (42, -20), (43, 100)];
    assert_eq!(check_ufo_destroyed(&ufos), vec![41, 42]);
    assert_eq!(check_ufo_destroyed(&vec![]), Vec::<u64>::new());
}
