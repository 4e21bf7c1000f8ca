use courage_core::assets::AssetPaths;
use courage_core::entities::{
    classify, draw_delay, draw_heading, move_entities, redraw_after_level_up, Appearance,
    EntityForm, GameEntity, Spawn,
};
use courage_core::geometry::{FieldOfView, Point};
use courage_core::player::PlayerState;
use courage_core::world::{
    choose_periodic_form, move_player, spawn_beginning_entities, GameWorld, Player, Session,
    SpawnTimer, WORLD_BORDER,
};

fn shape(form: EntityForm, x: i64, y: i64, appearance: Appearance) -> GameEntity {
    GameEntity {
        true_form: form,
        position: Point::new(x, y),
        current_direction: Point::new(1000, 0),
        last_contact: 0,
        next_direction_change: 1_000_000,
        known: false,
        appearance,
    }
}

fn session_with(state: PlayerState, wild: Vec<GameEntity>) -> Session {
    let player = Player { position: Point::new(0, 0), look: Point::new(0, 1) };
    Session {
        world: GameWorld::new(),
        player_state: state,
        player,
        field_of_view: if state.dead {
            None
        } else {
            Some(FieldOfView::new(player.position, player.look))
        },
        wild,
        befriended: Vec::new(),
        timer: SpawnTimer::new(),
    }
}

fn inside(p: Point, border: i64) -> bool {
    -border <= p.x && p.x <= border && -border <= p.y && p.y <= border
}

#[test]
fn levels_and_shapes_of_forms() {
    let forms = [
        EntityForm::Rectangle,
        EntityForm::Pentagon,
        EntityForm::Hexagon,
        EntityForm::Heptagon,
        EntityForm::Octagon,
        EntityForm::Nonagon,
    ];
    for (i, f) in forms.iter().enumerate() {
        assert_eq!(f.level(), i);
        assert_eq!(f.to_shape().sides as usize, i + 4);
        assert_eq!(EntityForm::from_roll(i as u64), *f);
        assert!(!f.is_threat());
    }
    assert_eq!(EntityForm::Enemy.level(), 99);
    assert_eq!(EntityForm::Enemy.to_shape().sides, 0);
    assert!(EntityForm::Enemy.is_threat());
    assert_eq!(EntityForm::from_roll(17), EntityForm::Nonagon);
}

#[test]
fn spawn_corners() {
    assert_eq!(Spawn::UpLeft.get_position(), Point::new(250_000, -250_000));
    assert_eq!(Spawn::UpRight.get_position(), Point::new(250_000, 250_000));
    assert_eq!(Spawn::BottomLeft.get_position(), Point::new(-250_000, -250_000));
    assert_eq!(Spawn::BottomRight.get_position(), Point::new(-250_000, 250_000));
    assert_eq!(Spawn::from_roll(2), Spawn::BottomLeft);
    assert_eq!(Spawn::from_roll(9), Spawn::BottomRight);
}

#[test]
fn periodic_form_split() {
    assert_eq!(choose_periodic_form(0, 3), EntityForm::Heptagon);
    assert_eq!(choose_periodic_form(79, 0), EntityForm::Rectangle);
    assert_eq!(choose_periodic_form(80, 0), EntityForm::Enemy);
    assert_eq!(choose_periodic_form(99, 5), EntityForm::Enemy);
}

#[test]
fn appearance_classes() {
    assert_eq!(classify(EntityForm::Enemy, false, 99), Appearance::Threat);
    assert_eq!(classify(EntityForm::Pentagon, true, 0), Appearance::Befriended);
    assert_eq!(classify(EntityForm::Pentagon, false, 1), Appearance::Revealed);
    assert_eq!(classify(EntityForm::Pentagon, false, 0), Appearance::Veiled);
}

#[test]
fn initial_entity_from_draws() {
    let e = GameEntity::initial(3, 5, Point::new(0, 10), Point::new(-4, 3), 1500);
    assert_eq!(e.true_form, EntityForm::Rectangle);
    assert_eq!(e.position, Point::new(0, 500_000));
    assert_eq!(e.current_direction, Point::new(-800, 600));
    assert_eq!(e.next_direction_change, 3500);
    assert_eq!(e.last_contact, 0);
    assert_eq!(e.appearance, Appearance::Revealed);
    let e = GameEntity::initial(7, 0, Point::new(1, 0), Point::new(1, 0), 0);
    assert_eq!(e.true_form, EntityForm::Pentagon);
    assert_eq!(e.appearance, Appearance::Veiled);
    let e = GameEntity::initial(12, 4, Point::new(1, 0), Point::new(1, 0), 0);
    assert_eq!(e.true_form, EntityForm::Octagon);
}

#[test]
fn arriving_entity_from_draws() {
    let e = GameEntity::arriving(Spawn::UpRight, EntityForm::Hexagon, Point::new(0, 9), 7000, 2);
    assert_eq!(e.position, Point::new(250_000, 250_000));
    assert_eq!(e.current_direction, Point::new(0, 1000));
    assert_eq!(e.last_contact, 7000);
    assert_eq!(e.next_direction_change, 9000);
    assert_eq!(e.appearance, Appearance::Revealed);
    let e = GameEntity::arriving(Spawn::UpRight, EntityForm::Enemy, Point::new(0, 9), u64::MAX, 0);
    assert_eq!(e.next_direction_change, u64::MAX);
    assert_eq!(e.appearance, Appearance::Threat);
}

#[test]
fn wander_step_moves_along_heading() {
    let e = shape(EntityForm::Pentagon, 0, 0, Appearance::Veiled);
    let r = e.wander(16, 100, WORLD_BORDER, Point::new(0, 1), 0);
    assert_eq!(r.position, Point::new(1600, 0));
    assert_eq!(r.current_direction, Point::new(1000, 0));
    let back = GameEntity { current_direction: Point::new(-600, 800), ..e };
    let r = back.wander(10, 100, WORLD_BORDER, Point::new(0, 1), 0);
    assert_eq!(r.position, Point::new(-600, 800));
}

#[test]
fn wander_bounces_at_border() {
    let e = shape(EntityForm::Pentagon, WORLD_BORDER - 500, 0, Appearance::Veiled);
    let r = e.wander(16, 100, WORLD_BORDER, Point::new(0, -3), 2000);
    assert_eq!(r.position, e.position);
    assert_eq!(r.current_direction, Point::new(0, -1000));
    assert_eq!(r.next_direction_change, 4100);
}

#[test]
fn wander_turns_when_due() {
    let e = GameEntity { next_direction_change: 50, ..shape(EntityForm::Pentagon, 0, 0, Appearance::Veiled) };
    let r = e.wander(0, 50, WORLD_BORDER, Point::new(-1, 0), 300);
    assert_eq!(r.current_direction, Point::new(-1000, 0));
    assert_eq!(r.next_direction_change, 2350);
}

#[test]
fn wandering_stays_inside_border() {
    let mut wild = spawn_beginning_entities();
    let mut now: u64 = 0;
    for _ in 0..3000 {
        now += 33;
        move_entities(&mut wild, 33, now, WORLD_BORDER);
        for e in wild.iter() {
            assert!(inside(e.position, WORLD_BORDER));
        }
    }
    let small = 300_000;
    let mut wild = vec![shape(EntityForm::Hexagon, 299_000, 0, Appearance::Veiled)];
    for _ in 0..2000 {
        now += 50;
        move_entities(&mut wild, 50, now, small);
        assert!(inside(wild[0].position, small));
    }
}

#[test]
fn opening_batch() {
    let wild = spawn_beginning_entities();
    assert_eq!(wild.len(), 30);
    for (i, e) in wild.iter().enumerate() {
        if i < 5 {
            assert_eq!(e.true_form, EntityForm::Rectangle);
            assert_eq!(e.appearance, Appearance::Revealed);
        } else if i < 10 {
            assert_eq!(e.true_form, EntityForm::Pentagon);
            assert_eq!(e.appearance, Appearance::Veiled);
        } else {
            assert!(!e.true_form.is_threat());
        }
        assert!(inside(e.position, 500_000));
        assert!(!e.known);
        assert!(e.next_direction_change >= 2000 && e.next_direction_change <= 5000);
    }
}

#[test]
fn draws_vary() {
    let delays: Vec<u64> = (0..200).map(|_| draw_delay()).collect();
    assert!(delays.iter().all(|d| *d <= 3000));
    assert!(delays.iter().any(|d| *d != delays[0]));
    let headings: Vec<Point> = (0..200).map(|_| draw_heading()).collect();
    assert!(headings.iter().all(|h| inside(*h, 1000)));
    assert!(headings.iter().any(|h| *h != headings[0]));
    let corners: Vec<Spawn> = (0..200).map(|_| Spawn::random()).collect();
    assert!(corners.iter().any(|c| *c != corners[0]));
}

#[test]
fn spawn_timer_period() {
    let mut t = SpawnTimer::new();
    assert!(!t.tick(2000));
    assert_eq!(t.elapsed, 2000);
    assert!(t.tick(300));
    assert_eq!(t.elapsed, 100);
    assert!(t.tick(u64::MAX));
    assert!(t.elapsed < 2200);
}

#[test]
fn player_moves_and_is_held_inside() {
    let mut p = Player { position: Point::new(0, 0), look: Point::new(0, 1) };
    move_player(&mut p, Some(Point::new(1000, 0)), None, 100, WORLD_BORDER);
    assert_eq!(p.position, Point::new(15_000, 0));
    assert_eq!(p.look, Point::new(0, 1));
    move_player(&mut p, Some(Point::new(0, -1000)), Some(Point::new(-20, 4)), 100_000, WORLD_BORDER);
    assert_eq!(p.position, Point::new(15_000, -WORLD_BORDER));
    assert_eq!(p.look, Point::new(-20, 4));
    move_player(&mut p, None, None, 100, WORLD_BORDER);
    assert_eq!(p.position, Point::new(15_000, -WORLD_BORDER));
}

#[test]
fn redraw_reveals_reached_level_only() {
    let mut wild = vec![
        shape(EntityForm::Pentagon, 0, 0, Appearance::Veiled),
        shape(EntityForm::Hexagon, 0, 0, Appearance::Veiled),
        shape(EntityForm::Enemy, 0, 0, Appearance::Threat),
        shape(EntityForm::Rectangle, 0, 0, Appearance::Revealed),
    ];
    redraw_after_level_up(&mut wild, 1);
    assert_eq!(wild[0].appearance, Appearance::Revealed);
    assert!(!wild[0].known);
    assert_eq!(wild[1].appearance, Appearance::Veiled);
    assert_eq!(wild[2].appearance, Appearance::Threat);
    assert_eq!(wild[3].appearance, Appearance::Revealed);
}

#[test]
fn scenario_befriend_in_tick() {
    let state = PlayerState { level: 0, courage: 50, dead: false };
    let mut s = session_with(state, vec![shape(EntityForm::Rectangle, 0, 100_000, Appearance::Revealed)]);
    let r = s.tick(0, 100, None, None);
    assert_eq!(s.player_state.courage, 70);
    assert!(s.wild.is_empty());
    assert_eq!(s.befriended.len(), 1);
    assert!(s.befriended[0].known);
    assert!(r.befriend);
}

#[test]
fn scenario_threat_kills_in_tick() {
    let state = PlayerState { level: 0, courage: 10, dead: false };
    let mut s = session_with(state, vec![shape(EntityForm::Pentagon, 0, 100_000, Appearance::Veiled)]);
    let r = s.tick(0, 1000, None, None);
    assert_eq!(s.player_state.courage, 10);
    assert!(!r.dying);
    let r = s.tick(0, 2000, None, None);
    assert_eq!(s.player_state.courage, 0);
    assert!(s.player_state.dead);
    assert!(r.dying);
    assert!(s.field_of_view.is_none());
}

#[test]
fn scenario_level_up_redraws() {
    let state = PlayerState { level: 0, courage: 90, dead: false };
    let wild = vec![
        shape(EntityForm::Rectangle, 0, 100_000, Appearance::Revealed),
        shape(EntityForm::Rectangle, 0, -100_000, Appearance::Revealed),
        shape(EntityForm::Pentagon, 300_000, 0, Appearance::Veiled),
        shape(EntityForm::Hexagon, -300_000, 0, Appearance::Veiled),
    ];
    let mut s = session_with(state, wild);
    let r = s.tick(0, 100, None, None);
    assert!(r.level_up);
    assert_eq!(s.player_state.courage, 0);
    assert_eq!(s.player_state.level, 1);
    assert_eq!(s.wild.len(), 3);
    assert_eq!(s.wild[0].appearance, Appearance::Revealed);
    assert_eq!(s.wild[1].appearance, Appearance::Revealed);
    assert_eq!(s.wild[1].true_form, EntityForm::Pentagon);
    assert_eq!(s.wild[2].appearance, Appearance::Veiled);
    assert!(s.wild.iter().all(|e| !e.known));
}

#[test]
fn scenario_dead_round_stands_still() {
    let state = PlayerState { level: 2, courage: 0, dead: true };
    let wild = vec![
        shape(EntityForm::Rectangle, 0, 100_000, Appearance::Revealed),
        shape(EntityForm::Enemy, 0, 120_000, Appearance::Threat),
    ];
    let mut s = session_with(state, wild.clone());
    let before_player = s.player;
    for i in 1..200u64 {
        let r = s.tick(16, 16 * i + 10_000, Some(Point::new(1000, 0)), Some(Point::new(5, 5)));
        assert!(!r.befriend && !r.nope && !r.level_up && !r.dying);
    }
    assert_eq!(s.wild, wild);
    assert!(s.befriended.is_empty());
    assert_eq!(s.player, before_player);
    assert_eq!(s.player_state, state);
    assert!(s.field_of_view.is_none());
}

#[test]
fn round_progresses_monotonically() {
    let mut s = Session::start();
    assert_eq!(s.wild.len(), 30);
    assert_eq!(s.player_state, PlayerState::default());
    let mut now: u64 = 0;
    let mut level = 0;
    let mut friends = 0;
    for i in 0..4000u64 {
        now += 16;
        let look = Point::new(((i % 360) as i64) - 180, 100);
        s.tick(16, now, Some(Point::new(600, 800)), Some(look));
        assert!(s.player_state.level >= level);
        assert!(s.befriended.len() >= friends);
        assert!(s.player_state.courage <= 100);
        assert!(s.befriended.iter().all(|e| e.known));
        assert!(s.wild.iter().all(|e| !e.known && inside(e.position, WORLD_BORDER)));
        assert!(inside(s.player.position, WORLD_BORDER));
        level = s.player_state.level;
        friends = s.befriended.len();
    }
    assert!(s.wild.len() + s.befriended.len() >= 30);
}

#[test]
fn spawns_while_playing() {
    let mut s = session_with(PlayerState::default(), Vec::new());
    assert!(!s.spawn_entity(2000, 2000));
    assert!(s.spawn_entity(200, 2200));
    assert_eq!(s.wild.len(), 1);
    let e = s.wild[0];
    assert_eq!(e.last_contact, 2200);
    assert_eq!(e.position.x.abs(), 250_000);
    assert_eq!(e.position.y.abs(), 250_000);
    let mut high = session_with(PlayerState { level: 6, courage: 50, dead: false }, Vec::new());
    assert!(!high.spawn_entity(5000, 5000));
    assert!(high.wild.is_empty());
}

#[test]
fn ending_a_round_removes_shapes() {
    let mut s = Session::start();
    let timer = s.timer;
    s.remove_entities();
    assert!(s.wild.is_empty());
    assert!(s.befriended.is_empty());
    assert!(s.field_of_view.is_none());
    assert_eq!(s.timer, timer);
}

#[test]
fn asset_paths() {
    let p = AssetPaths::new();
    assert_eq!(p.fira_sans, "fonts/FiraSans-Bold.ttf");
    assert_eq!(p.audio_background, "audio/background.ogg");
    assert_eq!(p.audio_hi_1, "audio/hi1.ogg");
    assert_eq!(p.audio_hi_3, "audio/hi3.ogg");
    assert_eq!(p.audio_nope_2, "audio/nope_2.ogg");
    assert_eq!(p.texture_bevy, "textures/bevy.png");
}

#[test]
fn enemy_outline_spirals_in() {
    let r = courage_core::entities::build_enemy_geometry();
    assert_eq!(r.len(), 18);
    assert_eq!(r[0], Point::new(-20_000, 20_000));
    assert_eq!(r[4], Point::new(-20_000, 15_000));
    assert_eq!(r[17], Point::new(0, 0));
}

fn norm2(p: Point) -> i64 {
    p.x * p.x + p.y * p.y
}

#[test]
fn headings_have_unit_length() {
    for x in -40i64..=40 {
        for y in -40i64..=40 {
            let u = courage_core::geometry::unit_direction(Point::new(x * 25_000, y * 3));
            assert!(norm2(u) >= 995_000 && norm2(u) <= 1_005_000);
        }
    }
    for _ in 0..200 {
        let u = courage_core::geometry::unit_direction(draw_heading());
        assert!(norm2(u) >= 995_000 && norm2(u) <= 1_005_000);
    }
}

#[test]
fn opening_batch_on_spawn_circle() {
    let wild = spawn_beginning_entities();
    for e in wild.iter() {
        let r2 = norm2(e.position);
        assert!(r2 >= 995_000 * 250_000 && r2 <= 1_005_000 * 250_000);
        let d2 = norm2(e.current_direction);
        assert!(d2 >= 995_000 && d2 <= 1_005_000);
        assert!(!e.true_form.is_threat());
        if e.true_form.level() > 0 {
            assert_eq!(e.appearance, Appearance::Veiled);
        }
    }
}

#[test]
fn spawn_timer_frozen_for_dead_or_top_level() {
    let dead = PlayerState { level: 0, courage: 0, dead: true };
    let mut s = session_with(dead, Vec::new());
    s.timer = SpawnTimer { elapsed: 2100 };
    assert!(!s.spawn_entity(500, 9000));
    assert_eq!(s.timer.elapsed, 2100);
    assert!(s.wild.is_empty());
    let top = PlayerState { level: 6, courage: 40, dead: false };
    let mut s = session_with(top, Vec::new());
    s.timer = SpawnTimer { elapsed: 2100 };
    assert!(!s.spawn_entity(500, 9000));
    assert_eq!(s.timer.elapsed, 2100);
    let mut s = session_with(PlayerState { level: 5, courage: 40, dead: false }, Vec::new());
    assert!(!s.spawn_entity(700, 700));
    assert_eq!(s.timer.elapsed, 700);
    assert!(s.spawn_entity(1600, 2300));
    assert_eq!(s.timer.elapsed, 100);
    assert_eq!(s.wild.len(), 1);
    let e = s.wild[0];
    assert_eq!(e.next_direction_change, 4300);
    assert!(!e.known);
    let d2 = norm2(e.current_direction);
    assert!(d2 >= 995_000 && d2 <= 1_005_000);
}

#[test]
fn tick_runs_spawn_timer() {
    let mut s = session_with(PlayerState::default(), Vec::new());
    s.tick(2000, 2000, None, None);
    assert!(s.wild.is_empty());
    assert_eq!(s.timer.elapsed, 2000);
    s.tick(250, 2250, None, None);
    assert_eq!(s.wild.len(), 1);
    assert_eq!(s.timer.elapsed, 50);
}

#[test]
fn session_starts_with_cone_at_player() {
    let s = Session::start();
    assert_eq!(s.field_of_view, Some(FieldOfView::new(s.player.position, s.player.look)));
}

#[test]
fn befriended_shapes_do_not_wander() {
    let friend = GameEntity {
        known: true,
        appearance: Appearance::Befriended,
        next_direction_change: 0,
        ..shape(EntityForm::Rectangle, WORLD_BORDER - 100, 0, Appearance::Befriended)
    };
    let wild_one = GameEntity { next_direction_change: 0, ..shape(EntityForm::Pentagon, 0, 0, Appearance::Veiled) };
    let mut list = vec![friend, wild_one];
    move_entities(&mut list, 16, 5000, WORLD_BORDER);
    assert_eq!(list[0], friend);
    assert!(list[1].next_direction_change >= 7000 && list[1].next_direction_change <= 10_000);
}
