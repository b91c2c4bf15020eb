use kitchen_fire::collisions::{
    apply_burn_damage, handle_collisions, reset_burn_state, track_burn_end, CollisionPair,
    FireRoll, HazardSource, Knock, Roles, BURN_DAMAGE_INTERVAL_NS,
};
use kitchen_fire::contacts::BurnContacts;
use kitchen_fire::hud::{PlayerHealth, Score};
use kitchen_fire::timer::RepeatingTimer;

const PLAYER: u64 = 1;
const BUBBLE_A: u64 = 10;
const BUBBLE_B: u64 = 11;
const FIRE_A: u64 = 20;
const FIRE_B: u64 = 21;
const TABLE: u64 = 30;
const CHAIR: u64 = 31;
const WALL: u64 = 40;

fn roles() -> Roles {
    Roles {
        player: PLAYER,
        bubbles: vec![BUBBLE_A, BUBBLE_B],
        fires: vec![FIRE_A, FIRE_B],
        knockables: vec![TABLE, CHAIR],
        positioned: vec![PLAYER, BUBBLE_A, BUBBLE_B, FIRE_A, FIRE_B, TABLE],
    }
}

fn pair(a: u64, b: u64) -> CollisionPair {
    CollisionPair { collider1: a, collider2: b }
}

fn sorted(set: std::collections::HashSet<u64>) -> Vec<u64> {
    let mut v: Vec<u64> = set.into_iter().collect();
    v.sort();
    v
}

#[test]
fn bubble_puts_out_fire_and_scores() {
    let mut score = Score(4);
    let mut burn = BurnContacts::new();
    let out = handle_collisions(&roles(), &vec![pair(FIRE_A, BUBBLE_A)], &mut score, &mut burn);
    assert_eq!(score.0, 5);
    assert_eq!(sorted(out.despawn), vec![BUBBLE_A, FIRE_A]);
    assert!(out.knocks.is_empty());
    assert!(burn.is_empty());
}

#[test]
fn bubble_hitting_a_wall_vanishes_alone() {
    let mut score = Score(0);
    let mut burn = BurnContacts::new();
    let out = handle_collisions(&roles(), &vec![pair(BUBBLE_A, WALL)], &mut score, &mut burn);
    assert_eq!(score.0, 0);
    assert_eq!(sorted(out.despawn), vec![BUBBLE_A]);
}

#[test]
fn two_bubbles_on_one_fire_score_twice_despawn_once() {
    let mut score = Score(0);
    let mut burn = BurnContacts::new();
    let events = vec![pair(BUBBLE_A, FIRE_A), pair(FIRE_A, BUBBLE_B)];
    let out = handle_collisions(&roles(), &events, &mut score, &mut burn);
    assert_eq!(score.0, 2);
    assert_eq!(sorted(out.despawn), vec![BUBBLE_A, BUBBLE_B, FIRE_A]);
}

#[test]
fn two_bubbles_touching_each_other_both_vanish() {
    let mut score = Score(0);
    let mut burn = BurnContacts::new();
    let out = handle_collisions(&roles(), &vec![pair(BUBBLE_A, BUBBLE_B)], &mut score, &mut burn);
    assert_eq!(score.0, 0);
    assert_eq!(sorted(out.despawn), vec![BUBBLE_A, BUBBLE_B]);
}

#[test]
fn player_touching_fire_starts_burning() {
    let mut score = Score(0);
    let mut burn = BurnContacts::new();
    let out = handle_collisions(&roles(), &vec![pair(FIRE_B, PLAYER)], &mut score, &mut burn);
    assert!(out.despawn.is_empty());
    assert_eq!(burn.len(), 1);
    assert!(burn.contains(FIRE_B));
    // Touching again adds nothing new.
    handle_collisions(&roles(), &vec![pair(PLAYER, FIRE_B)], &mut score, &mut burn);
    assert_eq!(burn.len(), 1);
}

#[test]
fn player_knocks_furniture_with_three_rolls() {
    let mut score = Score(0);
    let mut burn = BurnContacts::new();
    let out = handle_collisions(&roles(), &vec![pair(PLAYER, TABLE)], &mut score, &mut burn);
    assert_eq!(
        out.knocks,
        vec![Knock {
            target: TABLE,
            roll: Some(FireRoll { source: HazardSource::Player, num_fires: 3 })
        }]
    );
}

#[test]
fn bubble_knocks_furniture_with_one_roll() {
    let mut score = Score(0);
    let mut burn = BurnContacts::new();
    let out = handle_collisions(&roles(), &vec![pair(TABLE, BUBBLE_B)], &mut score, &mut burn);
    assert_eq!(
        out.knocks,
        vec![Knock {
            target: TABLE,
            roll: Some(FireRoll { source: HazardSource::Bubble, num_fires: 1 })
        }]
    );
    assert_eq!(sorted(out.despawn), vec![BUBBLE_B]);
}

#[test]
fn knock_without_position_or_by_other_furniture_rolls_nothing() {
    let mut score = Score(0);
    let mut burn = BurnContacts::new();
    // The chair carries no position; table and chair knock each other.
    let out = handle_collisions(
        &roles(),
        &vec![pair(PLAYER, CHAIR), pair(TABLE, CHAIR)],
        &mut score,
        &mut burn,
    );
    assert_eq!(
        out.knocks,
        vec![
            Knock { target: CHAIR, roll: None },
            Knock { target: CHAIR, roll: None },
            Knock { target: TABLE, roll: None },
        ]
    );
}

#[test]
fn contact_then_separation_stops_burning() {
    let mut score = Score(0);
    let mut burn = BurnContacts::new();
    burn.insert(FIRE_A);
    let events = vec![pair(PLAYER, FIRE_B)];
    handle_collisions(&roles(), &events, &mut score, &mut burn);
    assert_eq!(burn.len(), 2);
    track_burn_end(PLAYER, &roles().fires, &events, &mut burn);
    assert_eq!(burn.len(), 1);
    assert!(burn.contains(FIRE_A));
    assert!(!burn.contains(FIRE_B));
}

#[test]
fn separation_from_non_fire_changes_nothing() {
    let mut burn = BurnContacts::new();
    burn.insert(FIRE_A);
    track_burn_end(PLAYER, &roles().fires, &vec![pair(PLAYER, WALL), pair(BUBBLE_A, FIRE_A)], &mut burn);
    assert!(burn.contains(FIRE_A));
}

#[test]
fn burn_contacts_behave_as_a_set() {
    let mut burn = BurnContacts::new();
    assert!(burn.is_empty());
    burn.insert(3);
    burn.insert(5);
    burn.insert(3);
    assert_eq!(burn.len(), 2);
    burn.remove(3);
    assert!(!burn.contains(3));
    assert!(burn.contains(5));
    burn.remove(99);
    assert_eq!(burn.len(), 1);
    burn.insert(7);
    burn.retain_live(&vec![7, 8]);
    assert_eq!(burn.len(), 1);
    assert!(burn.contains(7));
    burn.clear();
    assert!(burn.is_empty());
}

#[test]
fn burning_costs_one_health_per_period() {
    let mut burn = BurnContacts::new();
    burn.insert(FIRE_A);
    let mut timer = RepeatingTimer::new(BURN_DAMAGE_INTERVAL_NS);
    let mut health = PlayerHealth(10);
    let fires = vec![FIRE_A];
    apply_burn_damage(&mut burn, &fires, &mut timer, 300_000_000, &mut health);
    assert_eq!(health.0, 10);
    apply_burn_damage(&mut burn, &fires, &mut timer, 300_000_000, &mut health);
    assert_eq!(health.0, 9);
    assert_eq!(timer.elapsed_ns(), 100_000_000);
    // Several periods in one frame still cost a single point.
    apply_burn_damage(&mut burn, &fires, &mut timer, 1_500_000_000, &mut health);
    assert_eq!(health.0, 8);
}

#[test]
fn extinguished_fire_stops_burning_and_resets_timer() {
    let mut burn = BurnContacts::new();
    burn.insert(FIRE_A);
    let mut timer = RepeatingTimer::new(BURN_DAMAGE_INTERVAL_NS);
    let mut health = PlayerHealth(10);
    apply_burn_damage(&mut burn, &vec![FIRE_A], &mut timer, 400_000_000, &mut health);
    assert_eq!(timer.elapsed_ns(), 400_000_000);
    apply_burn_damage(&mut burn, &vec![FIRE_B], &mut timer, 400_000_000, &mut health);
    assert!(burn.is_empty());
    assert_eq!(timer.elapsed_ns(), 0);
    assert_eq!(health.0, 10);
}

#[test]
fn burning_at_zero_health_stays_zero() {
    let mut burn = BurnContacts::new();
    burn.insert(FIRE_A);
    let mut timer = RepeatingTimer::new(BURN_DAMAGE_INTERVAL_NS);
    let mut health = PlayerHealth(0);
    apply_burn_damage(&mut burn, &vec![FIRE_A], &mut timer, 600_000_000, &mut health);
    assert_eq!(health.0, 0);
}

#[test]
fn reset_clears_burning() {
    let mut burn = BurnContacts::new();
    burn.insert(FIRE_A);
    let mut timer = RepeatingTimer::new(BURN_DAMAGE_INTERVAL_NS);
    timer.tick(200);
    reset_burn_state(&mut burn, &mut timer);
    assert!(burn.is_empty());
    assert_eq!(timer.elapsed_ns(), 0);
}

#[test]
fn insert_then_remove_restores_contacts() {
    let mut burn = BurnContacts::new();
    burn.insert(FIRE_A);
    burn.insert(FIRE_B);
    burn.remove(FIRE_B);
    assert_eq!(burn.len(), 1);
    assert!(burn.contains(FIRE_A));
    assert!(!burn.contains(FIRE_B));
}

#[test]
fn knocked_furniture_rolls_only_once() {
    let mut score = Score(0);
    let mut burn = BurnContacts::new();
    let first = handle_collisions(&roles(), &vec![pair(PLAYER, TABLE)], &mut score, &mut burn);
    assert_eq!(first.knocks.len(), 1);
    assert_eq!(first.knocks[0].target, TABLE);
    // The table is marked knocked, so the next frame no longer lists it.
    let mut later = roles();
    later.knockables.retain(|k| *k != TABLE);
    let second = handle_collisions(&later, &vec![pair(PLAYER, TABLE), pair(TABLE, BUBBLE_A)], &mut score, &mut burn);
    assert!(second.knocks.iter().all(|k| k.target != TABLE));
    assert!(second.knocks.is_empty());
}
