use courage_core::entities::{Appearance, EntityForm, GameEntity};
use courage_core::geometry::{FieldOfView, Point};
use courage_core::player::{mark_entities_in_field_of_view, settle_courage, PlayerState};

fn cone_up() -> FieldOfView {
    FieldOfView::new(Point::new(0, 0), Point::new(0, 1))
}

fn shape(form: EntityForm, x: i64, y: i64, appearance: Appearance) -> GameEntity {
    GameEntity {
        true_form: form,
        position: Point::new(x, y),
        current_direction: Point::new(1000, 0),
        last_contact: 0,
        next_direction_change: 1_000_000,
        known: false,
        appearance,
    }
}

fn player(level: usize, courage: u64) -> PlayerState {
    PlayerState { level, courage, dead: false }
}

#[test]
fn befriend_level_zero_shape() {
    let mut p = player(0, 50);
    let mut wild = vec![shape(EntityForm::Rectangle, 0, 100_000, Appearance::Revealed)];
    let mut friends = Vec::new();
    let r = mark_entities_in_field_of_view(&mut p, &mut wild, &mut friends, &cone_up(), 100);
    assert_eq!(p.courage, 70);
    assert_eq!(p.level, 0);
    assert!(!p.dead);
    assert!(wild.is_empty());
    assert_eq!(friends.len(), 1);
    assert!(friends[0].known);
    assert_eq!(friends[0].appearance, Appearance::Befriended);
    assert_eq!(friends[0].true_form, EntityForm::Rectangle);
    assert!(r.befriend && !r.nope && !r.level_up && !r.dying);
}

#[test]
fn hostile_contact_kills_low_courage() {
    let mut p = player(0, 10);
    let mut wild = vec![shape(EntityForm::Pentagon, 0, 100_000, Appearance::Veiled)];
    let mut friends = Vec::new();
    let r = mark_entities_in_field_of_view(&mut p, &mut wild, &mut friends, &cone_up(), 2500);
    assert_eq!(p.courage, 0);
    assert!(p.dead);
    assert!(r.dying);
    assert!(!r.nope);
    assert_eq!(wild.len(), 1);
    assert_eq!(wild[0].last_contact, 2500);
    assert!(friends.is_empty());
}

#[test]
fn full_gauge_levels_up() {
    let mut p = player(0, 90);
    let mut wild = vec![
        shape(EntityForm::Rectangle, 0, 100_000, Appearance::Revealed),
        shape(EntityForm::Rectangle, 500_000, 0, Appearance::Revealed),
    ];
    let mut friends = Vec::new();
    let r = mark_entities_in_field_of_view(&mut p, &mut wild, &mut friends, &cone_up(), 100);
    assert_eq!(p.courage, 0);
    assert_eq!(p.level, 1);
    assert!(r.level_up && r.befriend && !r.dying);
    assert_eq!(wild.len(), 1);
    assert!(!wild[0].known);
    assert_eq!(friends.len(), 1);
}

#[test]
fn equal_level_is_befriended() {
    let mut p = player(2, 40);
    let mut wild = vec![shape(EntityForm::Hexagon, 10_000, 60_000, Appearance::Revealed)];
    let mut friends = Vec::new();
    mark_entities_in_field_of_view(&mut p, &mut wild, &mut friends, &cone_up(), 0);
    assert!(wild.is_empty());
    assert!(friends[0].known);
    assert_eq!(p.courage, 60);
}

#[test]
fn threat_is_hostile_at_any_level() {
    let mut p = player(200, 60);
    let mut wild = vec![shape(EntityForm::Enemy, 0, 100_000, Appearance::Threat)];
    let mut friends = Vec::new();
    let r = mark_entities_in_field_of_view(&mut p, &mut wild, &mut friends, &cone_up(), 3000);
    assert_eq!(p.courage, 40);
    assert!(r.nope);
    assert_eq!(wild.len(), 1);
    assert!(friends.is_empty());
}

#[test]
fn shapes_out_of_view_are_untouched() {
    let mut p = player(0, 50);
    let original = vec![
        shape(EntityForm::Rectangle, 0, -100_000, Appearance::Revealed),
        shape(EntityForm::Enemy, 200_000, 0, Appearance::Threat),
    ];
    let mut wild = original.clone();
    let mut friends = Vec::new();
    let r = mark_entities_in_field_of_view(&mut p, &mut wild, &mut friends, &cone_up(), 9000);
    assert_eq!(wild, original);
    assert_eq!(p, player(0, 50));
    assert!(!r.befriend && !r.nope && !r.level_up && !r.dying);
}

#[test]
fn threat_cooldown_over_five_seconds() {
    let mut p = player(0, 80);
    let mut wild = vec![shape(EntityForm::Enemy, 0, 100_000, Appearance::Threat)];
    let mut friends = Vec::new();
    let fov = cone_up();
    let mut hits: Vec<u64> = Vec::new();
    let mut now: u64 = 0;
    while now <= 5000 {
        let before = p.courage;
        let r = mark_entities_in_field_of_view(&mut p, &mut wild, &mut friends, &fov, now);
        if p.courage < before {
            assert!(r.nope);
            hits.push(now);
        }
        now += 16;
    }
    assert_eq!(hits, vec![2000, 4000]);
    assert_eq!(p.courage, 40);
    for pair in hits.windows(2) {
        assert!(pair[1] - pair[0] >= 2000);
    }
}

#[test]
fn nope_follows_courage_before_clamping() {
    let mut p = player(0, 30);
    let mut wild = vec![
        shape(EntityForm::Enemy, 0, 100_000, Appearance::Threat),
        shape(EntityForm::Nonagon, 0, 110_000, Appearance::Veiled),
    ];
    let mut friends = Vec::new();
    let r = mark_entities_in_field_of_view(&mut p, &mut wild, &mut friends, &cone_up(), 4000);
    assert!(r.nope);
    assert!(r.dying);
    assert!(p.dead);
    assert_eq!(p.courage, 0);
    assert!(wild.iter().all(|e| e.last_contact == 4000));
}

#[test]
fn dead_player_resolves_nothing() {
    let mut p = PlayerState { level: 0, courage: 0, dead: true };
    let mut wild = vec![shape(EntityForm::Rectangle, 0, 100_000, Appearance::Revealed)];
    let mut friends = Vec::new();
    let r = mark_entities_in_field_of_view(&mut p, &mut wild, &mut friends, &cone_up(), 100);
    assert_eq!(wild.len(), 1);
    assert!(friends.is_empty());
    assert!(!r.befriend && !r.nope && !r.level_up && !r.dying);
}

#[test]
fn courage_stays_on_gauge_for_any_delta() {
    for c in -500i128..=500 {
        let mut p = player(3, 50);
        settle_courage(&mut p, c);
        assert!(p.courage <= 100);
        assert!(p.level >= 3);
    }
}

#[test]
fn settle_exact_values() {
    let mut p = player(0, 50);
    assert_eq!(settle_courage(&mut p, 70), (false, false));
    assert_eq!(p, player(0, 70));
    let mut p = player(4, 50);
    assert_eq!(settle_courage(&mut p, 130), (true, false));
    assert_eq!(p, player(5, 0));
    let mut p = player(4, 50);
    assert_eq!(settle_courage(&mut p, -30), (false, true));
    assert_eq!(p, PlayerState { level: 4, courage: 0, dead: true });
    let mut p = player(usize::MAX, 50);
    settle_courage(&mut p, 100);
    assert_eq!(p.level, usize::MAX);
}

#[test]
fn default_player_state() {
    let p = PlayerState::default();
    assert_eq!(p, PlayerState { level: 0, courage: 50, dead: false });
}
