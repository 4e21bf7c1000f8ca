//! A round of play: the world's bound, the player, the shapes, and the
//! tick that moves them all in order.
use vstd::prelude::*;
use crate::chance::random_in;
use crate::entities::{
    appearance_for, draw_delay, draw_heading, later, on_spawn_circle, Appearance, EntityForm, GameEntity, Spawn,
    CORNER_OFFSET, EASY_PREFIX, INITIAL_COUNT, MAX_FORM_LEVEL, ORDINARY_PERCENT, REDIRECT_BASE,
    REDIRECT_SPREAD, SPAWN_RADIUS,
};
use crate::geometry::{
    is_direction, is_unit, quot, quot_toward_zero, unit_of, within, FieldOfView, Point, COORD_LIMIT,
    DIRECTION_INPUT_LIMIT, FOV_REACH, UNIT,
};
use crate::entities::{move_entities, redraw_after_level_up, wandered};
use crate::player::{
    clamp_courage, mark_entities_in_field_of_view, next_level, settle, tally, Outcomes, PlayerState,
    COURAGE_MAX, COURAGE_START,
};

verus! {

/// Half-width of the square world: 1000 world units.
pub const WORLD_BORDER: i64 = 1_000_000;

/// Time between two periodic spawns, in milliseconds.
pub const SPAWN_PERIOD: u64 = 2200;

/// Player speed in thousandths of a unit per millisecond (world units per
/// second).
pub const PLAYER_SPEED: i64 = 150;

/// The square `[-border, border]` on both axes that everything stays in.
#[derive(Clone, Copy, Debug, PartialEq, Eq, Structural)]
pub struct GameWorld {
    pub border: i64,
}

impl GameWorld {
    /// The border leaves room for every spawn point and fits the cone test.
    pub open spec fn wf(&self) -> bool {
        SPAWN_RADIUS <= self.border <= COORD_LIMIT
    }

    /// The world of a round.
    pub fn new() -> (r: GameWorld)
        ensures
            r.border == WORLD_BORDER,
            r.wf(),
    {
        GameWorld { border: WORLD_BORDER }
    }
}

/// The ordinary form that `form_roll` selects when `class_roll`, out of a
/// hundred, falls below `ORDINARY_PERCENT`; the threat otherwise.
pub open spec fn periodic_form(class_roll: u64, form_roll: u64) -> EntityForm {
    if class_roll < ORDINARY_PERCENT {
        EntityForm::spec_from_roll(form_roll)
    } else {
        EntityForm::Enemy
    }
}

/// The form of a periodic spawn, from its two rolls.
pub fn choose_periodic_form(class_roll: u64, form_roll: u64) -> (r: EntityForm)
    ensures
        r == periodic_form(class_roll, form_roll),
{
    if class_roll < ORDINARY_PERCENT {
        EntityForm::from_roll(form_roll)
    } else {
        EntityForm::Enemy
    }
}

/// The repeating timer of periodic spawns.
#[derive(Clone, Copy, Debug, PartialEq, Eq, Structural)]
pub struct SpawnTimer {
    pub elapsed: u64,
}

impl SpawnTimer {
    pub open spec fn wf(&self) -> bool {
        self.elapsed < SPAWN_PERIOD
    }

    /// A timer that has just started.
    pub fn new() -> (r: SpawnTimer)
        ensures
            r.elapsed == 0,
    {
        SpawnTimer { elapsed: 0 }
    }

    /// Advances the timer by `dt` milliseconds; returns whether it went off,
    /// which it does when the period is reached, and then starts over with
    /// what is left.
    pub fn tick(&mut self, dt: u64) -> (r: bool)
        requires
            old(self).wf(),
        ensures
            final(self).wf(),
            r == (old(self).elapsed + dt >= SPAWN_PERIOD),
            final(self).elapsed == (old(self).elapsed + dt) % (SPAWN_PERIOD as int),
    {
        let left: u64 = SPAWN_PERIOD - self.elapsed;
        if dt >= left {
            let over: u64 = dt - left;
            self.elapsed = over % SPAWN_PERIOD;
            proof {
                vstd::arithmetic::div_mod::lemma_mod_add_multiples_vanish(
                    over as int,
                    SPAWN_PERIOD as int,
                );
            }
            true
        } else {
            self.elapsed = self.elapsed + dt;
            proof {
                vstd::arithmetic::div_mod::lemma_small_mod(
                    (old(self).elapsed + dt) as nat,
                    SPAWN_PERIOD as nat,
                );
            }
            false
        }
    }
}

/// The player's body: where it stands and where it looks (the cursor's
/// offset from the centre of the screen).
#[derive(Clone, Copy, Debug, PartialEq, Eq, Structural)]
pub struct Player {
    pub position: Point,
    pub look: Point,
}

/// `v` held to `[-border, border]`.
pub open spec fn clamp_axis(v: int, border: int) -> int {
    if v < -border {
        -border
    } else if v > border {
        border
    } else {
        v
    }
}

/// The player after `dt` milliseconds of moving along `movement` (none:
/// standing), held inside the world, looking at `cursor` if it moved.
pub open spec fn spec_move_player(
    p: Player,
    movement: Option<Point>,
    cursor: Option<Point>,
    dt: u64,
    border: i64,
) -> Player {
    let position = match movement {
        Some(m) => Point {
            x: clamp_axis(p.position.x + quot(m.x * PLAYER_SPEED * dt, UNIT as int), border as int)
                as i64,
            y: clamp_axis(p.position.y + quot(m.y * PLAYER_SPEED * dt, UNIT as int), border as int)
                as i64,
        },
        None => p.position,
    };
    let look = match cursor {
        Some(c) => c,
        None => p.look,
    };
    Player { position, look }
}

/// One axis of a move, held to `[-border, border]`.
fn move_axis(v: i64, m: i64, dt: u64, border: i64) -> (r: i64)
    requires
        -UNIT <= m <= UNIT,
        0 <= border <= COORD_LIMIT,
    ensures
        r == clamp_axis(v + quot(m * PLAYER_SPEED * dt, UNIT as int), border as int),
{
    let t = dt as i128;
    let mm = m as i128;
    proof {
        assert(1000 * 150 * t <= 150_000 * 0xffff_ffff_ffff_ffffi128) by (nonlinear_arith)
            requires
                0 <= t <= 0xffff_ffff_ffff_ffffi128,
        ;
        assert(-(150_000 * t) <= mm * 150 * t <= 150_000 * t) by (nonlinear_arith)
            requires
                -1000 <= mm <= 1000,
                0 <= t,
        ;
    }
    let q = quot_toward_zero(mm * 150 * t, 1000);
    proof {
        crate::geometry::lemma_quot_bounded(mm * 150 * t, 150_000 * t, 1000);
    }
    let target: i128 = v as i128 + q;
    let b = border as i128;
    if target < -b {
        -border
    } else if target > b {
        border
    } else {
        target as i64
    }
}

/// Moves the player along `movement` for `dt` milliseconds, held inside
/// `[-border, border]`, and turns its look toward `cursor` when given.
pub fn move_player(
    player: &mut Player,
    movement: Option<Point>,
    cursor: Option<Point>,
    dt: u64,
    border: i64,
)
    requires
        0 <= border <= COORD_LIMIT,
        movement matches Some(m) ==> is_direction(m),
    ensures
        *final(player) == spec_move_player(*old(player), movement, cursor, dt, border),
{
    match movement {
        Some(m) => {
            let x = move_axis(player.position.x, m.x, dt, border);
            let y = move_axis(player.position.y, m.y, dt, border);
            player.position = Point { x, y };
        },
        None => {},
    }
    match cursor {
        Some(c) => {
            player.look = c;
        },
        None => {},
    }
}

/// A wild shape as a round keeps it: inside the world, heading along a
/// direction, not befriended, drawn for the player's `level`.
pub open spec fn wild_ok(e: GameEntity, border: i64, level: usize) -> bool {
    &&& within(e.position, border as int)
    &&& is_direction(e.current_direction)
    &&& !e.known
    &&& e.appearance == appearance_for(e.true_form, false, level)
}

/// A befriended shape as a round keeps it.
pub open spec fn friend_ok(e: GameEntity, border: i64) -> bool {
    &&& within(e.position, border as int)
    &&& is_direction(e.current_direction)
    &&& e.known
    &&& e.appearance == Appearance::Befriended
}

/// The opening batch of a round: `INITIAL_COUNT` shapes, the first
/// `EASY_PREFIX` of the lowest form and the next `EASY_PREFIX` of the form
/// above, the rest drawn among the ordinary forms; each on the circle of
/// radius `SPAWN_RADIUS`, with a drawn heading and first turn. Shapes above
/// level 0 are thus veiled.
pub fn spawn_beginning_entities() -> (r: Vec<GameEntity>)
    ensures
        r.len() == INITIAL_COUNT,
        forall|i: int|
            0 <= i < r.len() ==> {
                &&& i < EASY_PREFIX ==> (#[trigger] r[i]).true_form == EntityForm::Rectangle
                &&& EASY_PREFIX <= i < 2 * EASY_PREFIX ==> r[i].true_form == EntityForm::Pentagon
                &&& !(r[i].true_form is Enemy)
                &&& wild_ok(r[i], SPAWN_RADIUS, 0)
                &&& on_spawn_circle(r[i].position)
                &&& is_unit(r[i].current_direction)
                &&& r[i].last_contact == 0
                &&& REDIRECT_BASE <= r[i].next_direction_change <= REDIRECT_BASE
                    + REDIRECT_SPREAD
            },
{
    let mut r: Vec<GameEntity> = Vec::new();
    let mut i: usize = 0;
    while i < INITIAL_COUNT
        invariant
            0 <= i <= INITIAL_COUNT,
            r.len() == i,
            forall|j: int|
                0 <= j < r.len() ==> {
                    &&& j < EASY_PREFIX ==> (#[trigger] r[j]).true_form == EntityForm::Rectangle
                    &&& EASY_PREFIX <= j < 2 * EASY_PREFIX ==> r[j].true_form
                        == EntityForm::Pentagon
                    &&& !(r[j].true_form is Enemy)
                    &&& wild_ok(r[j], SPAWN_RADIUS, 0)
                    &&& on_spawn_circle(r[j].position)
                    &&& is_unit(r[j].current_direction)
                    &&& r[j].last_contact == 0
                    &&& REDIRECT_BASE <= r[j].next_direction_change <= REDIRECT_BASE
                        + REDIRECT_SPREAD
                },
        decreases INITIAL_COUNT - i,
    {
        let form_roll = random_in(0, 5) as u64;
        let place = draw_heading();
        let heading = draw_heading();
        let delay = draw_delay();
        let e = GameEntity::initial(i, form_roll, place, heading, delay);
        r.push(e);
        i = i + 1;
    }
    r
}

/// A shape that arrives at a drawn corner at `now`: an ordinary form, drawn,
/// four times in five, the threat otherwise.
pub fn spawn_arrival(now: u64, level: usize) -> (r: GameEntity)
    ensures
        r.position.x == CORNER_OFFSET || r.position.x == -CORNER_OFFSET,
        r.position.y == CORNER_OFFSET || r.position.y == -CORNER_OFFSET,
        is_unit(r.current_direction),
        !r.known,
        r.appearance == appearance_for(r.true_form, false, level),
        r.last_contact == now,
        r.next_direction_change == later(now, REDIRECT_BASE as int),
{
    let corner = Spawn::random();
    let class_roll = random_in(0, 99) as u64;
    let form_roll = random_in(0, 5) as u64;
    let form = choose_periodic_form(class_roll, form_roll);
    let heading = draw_heading();
    GameEntity::arriving(corner, form, heading, now, level)
}


proof fn lemma_wandered_ok(old: GameEntity, new: GameEntity, dt: u64, now: u64, border: i64, level: usize)
    requires
        wild_ok(old, border, level),
        wandered(old, new, dt, now, border),
    ensures
        wild_ok(new, border, level),
{
    crate::entities::wander_stays_inside(old, dt, now, border, new.current_direction, 0);
}

proof fn lemma_tally_ok(
    s: Seq<GameEntity>,
    fov: FieldOfView,
    level: usize,
    now: u64,
    courage: int,
    border: i64,
)
    requires
        forall|i: int| 0 <= i < s.len() ==> wild_ok(#[trigger] s[i], border, level),
    ensures
        forall|i: int|
            0 <= i < tally(s, fov, level, now, courage).wild.len() ==> wild_ok(
                #[trigger] tally(s, fov, level, now, courage).wild[i],
                border,
                level,
            ),
        forall|i: int|
            0 <= i < tally(s, fov, level, now, courage).friends.len() ==> friend_ok(
                #[trigger] tally(s, fov, level, now, courage).friends[i],
                border,
            ),
    decreases s.len(),
{
    if s.len() > 0 {
        assert forall|i: int| 0 <= i < s.drop_last().len() implies wild_ok(
            #[trigger] s.drop_last()[i],
            border,
            level,
        ) by {
            assert(s.drop_last()[i] == s[i]);
        }
        lemma_tally_ok(s.drop_last(), fov, level, now, courage, border);
        let e = s[s.len() - 1];
        assert(wild_ok(e, border, level));
        let t = tally(s.drop_last(), fov, level, now, courage);
        let t2 = tally(s, fov, level, now, courage);
        assert(t2 == crate::player::visit(t, e, fov, level, now));
        assert forall|i: int| 0 <= i < t2.wild.len() implies wild_ok(
            #[trigger] t2.wild[i],
            border,
            level,
        ) by {
            if i < t.wild.len() {
                assert(t2.wild[i] == t.wild[i]);
            }
        }
        assert forall|i: int| 0 <= i < t2.friends.len() implies friend_ok(
            #[trigger] t2.friends[i],
            border,
        ) by {
            if i < t.friends.len() {
                assert(t2.friends[i] == t.friends[i]);
            }
        }
    }
}

proof fn lemma_redrawn_ok(e: GameEntity, border: i64, level: usize)
    requires
        wild_ok(e, border, level),
    ensures
        wild_ok(e.spec_redrawn(next_level(level)), border, next_level(level)),
{
}

/// The cone of sight of a player's body.
pub open spec fn fov_of(p: Player) -> FieldOfView {
    FieldOfView { origin: p.position, facing: unit_of(p.look), reach: FOV_REACH }
}

/// `moved` is `before` after one step of wandering, shape by shape.
pub open spec fn wandered_all(
    before: Seq<GameEntity>,
    moved: Seq<GameEntity>,
    dt: u64,
    now: u64,
    border: i64,
) -> bool {
    &&& moved.len() == before.len()
    &&& forall|i: int|
        0 <= i < before.len() ==> wandered(#[trigger] before[i], moved[i], dt, now, border)
}

/// What a living player's tick does once the shapes have wandered to
/// `moved`: the encounters in the cone of the moved player are tallied,
/// the player settles, the befriended shapes join the end of `befriended`,
/// the wild ones stay in order (redrawn on a level-up), the spawn timer
/// runs while the settled player lives below the top level, with one shape
/// spawned after the others when it goes off, and the outcomes report the
/// tally.
pub open spec fn tick_result(
    old: Session,
    new: Session,
    moved: Seq<GameEntity>,
    dt: u64,
    now: u64,
    r: Outcomes,
) -> bool {
    let t = tally(moved, fov_of(new.player), old.player_state.level, now, old.player_state.courage as int);
    let kept = if r.level_up {
        t.wild.map_values(|e: GameEntity| e.spec_redrawn(new.player_state.level))
    } else {
        t.wild
    };
    let spawning = !new.player_state.dead && new.player_state.level <= MAX_FORM_LEVEL;
    &&& new.player_state == settle(old.player_state, t.courage)
    &&& new.befriended@ == old.befriended@ + t.friends
    &&& new.wild@.take(kept.len() as int) == kept
    &&& new.wild@.len() == kept.len() + if spawning && old.timer.elapsed + dt >= SPAWN_PERIOD {
        1int
    } else {
        0
    }
    &&& new.timer == if spawning {
        SpawnTimer { elapsed: ((old.timer.elapsed + dt) % (SPAWN_PERIOD as int)) as u64 }
    } else {
        old.timer
    }
    &&& r.befriend == t.befriend
    &&& r.nope == t.nope
    &&& r.level_up == (clamp_courage(t.courage) >= COURAGE_MAX)
    &&& r.dying == (clamp_courage(t.courage) <= 0)
    &&& new.field_of_view == if r.dying {
        None
    } else {
        Some(fov_of(new.player))
    }
}

/// Across a tick of a living player's round the level never falls, and no
/// shape goes from known to unknown: the befriended shapes stay, in place,
/// and every befriended shape is known.
pub proof fn progression_is_monotonic(
    old: Session,
    new: Session,
    moved: Seq<GameEntity>,
    dt: u64,
    now: u64,
    r: Outcomes,
)
    requires
        old.wf(),
        !old.player_state.dead,
        tick_result(old, new, moved, dt, now, r),
    ensures
        new.player_state.level >= old.player_state.level,
        new.befriended@.len() >= old.befriended@.len(),
        forall|i: int| 0 <= i < old.befriended@.len() ==> new.befriended@[i] == old.befriended@[i],
        forall|i: int| 0 <= i < new.befriended@.len() ==> (#[trigger] new.befriended@[i]).known,
{
    let fov = fov_of(new.player);
    let level = old.player_state.level;
    let c = old.player_state.courage as int;
    let t = tally(moved, fov, level, now, c);
    crate::player::level_never_falls(old.player_state, t.courage);
    crate::player::befriending_is_final(moved, fov, level, now, c);
    assert forall|i: int| 0 <= i < new.befriended@.len() implies (
    #[trigger] new.befriended@[i]).known by {
        if i < old.befriended@.len() {
            assert(friend_ok(old.befriended@[i], old.world.border));
        } else {
            assert(new.befriended@[i] == t.friends[i - old.befriended@.len()]);
        }
    }
}

/// A round in play: the world, the player's progression and body, its cone
/// of sight (none once dead), the wild and the befriended shapes, and the
/// spawn timer.
pub struct Session {
    pub world: GameWorld,
    pub player_state: PlayerState,
    pub player: Player,
    pub field_of_view: Option<FieldOfView>,
    pub wild: Vec<GameEntity>,
    pub befriended: Vec<GameEntity>,
    pub timer: SpawnTimer,
}

impl Session {
    /// Everything stays inside the world; wild shapes are not befriended and
    /// are drawn for the player's level; befriended ones are known; a living
    /// player has a cone of sight.
    pub open spec fn wf(&self) -> bool {
        &&& self.world.wf()
        &&& self.player_state.wf()
        &&& within(self.player.position, self.world.border as int)
        &&& within(self.player.look, DIRECTION_INPUT_LIMIT as int)
        &&& self.timer.wf()
        &&& (self.field_of_view matches Some(f) ==> f.wf())
        &&& (!self.player_state.dead ==> self.field_of_view is Some)
        &&& forall|i: int|
            0 <= i < self.wild.len() ==> wild_ok(
                #[trigger] self.wild[i],
                self.world.border,
                self.player_state.level,
            )
        &&& forall|i: int|
            0 <= i < self.befriended.len() ==> friend_ok(
                #[trigger] self.befriended[i],
                self.world.border,
            )
    }

    /// A new round: the player alive at the centre, looking up, with the
    /// starting courage, and the opening batch of shapes.
    pub fn start() -> (r: Session)
        ensures
            r.wf(),
            r.player_state == (PlayerState { level: 0, courage: COURAGE_START, dead: false }),
            r.player.position == (Point { x: 0, y: 0 }),
            r.wild.len() == INITIAL_COUNT,
            forall|i: int|
                0 <= i < r.wild.len() ==> {
                    &&& i < EASY_PREFIX ==> (#[trigger] r.wild[i]).true_form
                        == EntityForm::Rectangle
                    &&& EASY_PREFIX <= i < 2 * EASY_PREFIX ==> r.wild[i].true_form
                        == EntityForm::Pentagon
                },
            r.befriended.len() == 0,
            r.field_of_view == Some(fov_of(r.player)),
    {
        let world = GameWorld::new();
        let player = Player { position: Point { x: 0, y: 0 }, look: Point { x: 0, y: UNIT } };
        let wild = spawn_beginning_entities();
        let fov = FieldOfView::new(player.position, player.look);
        let r = Session {
            world,
            player_state: PlayerState::default(),
            player,
            field_of_view: Some(fov),
            wild,
            befriended: Vec::new(),
            timer: SpawnTimer::new(),
        };
        assert forall|i: int| 0 <= i < r.wild.len() implies wild_ok(
            #[trigger] r.wild[i],
            r.world.border,
            r.player_state.level,
        ) by {
            assert(wild_ok(r.wild[i], SPAWN_RADIUS, 0));
        }
        r
    }

    /// Ends the round: every shape and the cone of sight are removed.
    pub fn remove_entities(&mut self)
        ensures
            final(self).wild.len() == 0,
            final(self).befriended.len() == 0,
            final(self).field_of_view is None,
            final(self).player_state == old(self).player_state,
            final(self).player == old(self).player,
            final(self).world == old(self).world,
            final(self).timer == old(self).timer,
    {
        self.wild.clear();
        self.befriended.clear();
        self.field_of_view = None;
    }

    /// While the player lives and has not passed the highest form's level,
    /// advances the spawn timer by `dt` and, when it goes off, adds one shape
    /// at a drawn corner, met last at `now` and turning `REDIRECT_BASE`
    /// later. Otherwise the timer is left as it was and nothing spawns.
    pub fn spawn_entity(&mut self, dt: u64, now: u64) -> (spawned: bool)
        requires
            old(self).wf(),
        ensures
            final(self).wf(),
            spawned == (!old(self).player_state.dead && old(self).player_state.level
                <= MAX_FORM_LEVEL && old(self).timer.elapsed + dt >= SPAWN_PERIOD),
            final(self).timer == if old(self).player_state.dead || old(self).player_state.level
                > MAX_FORM_LEVEL {
                old(self).timer
            } else {
                SpawnTimer { elapsed: ((old(self).timer.elapsed + dt) % (SPAWN_PERIOD as int)) as u64 }
            },
            final(self).wild@.len() == old(self).wild@.len() + if spawned { 1int } else { 0 },
            spawned ==> {
                let e = final(self).wild@.last();
                &&& e.position.x == CORNER_OFFSET || e.position.x == -CORNER_OFFSET
                &&& e.position.y == CORNER_OFFSET || e.position.y == -CORNER_OFFSET
                &&& is_unit(e.current_direction)
                &&& e.last_contact == now
                &&& e.next_direction_change == later(now, REDIRECT_BASE as int)
                &&& !e.known
                &&& e.appearance == appearance_for(e.true_form, false, old(self).player_state.level)
            },
            final(self).wild@.take(old(self).wild@.len() as int) == old(self).wild@,
            final(self).befriended@ == old(self).befriended@,
            final(self).player_state == old(self).player_state,
            final(self).player == old(self).player,
            final(self).field_of_view == old(self).field_of_view,
            final(self).world == old(self).world,
    {
        let ghost before = self.wild@;
        if self.player_state.dead || self.player_state.level > MAX_FORM_LEVEL {
            assert(self.wild@.take(before.len() as int) =~= before);
            return false;
        }
        if !self.timer.tick(dt) {
            assert(self.wild@.take(before.len() as int) =~= before);
            return false;
        }
        let e = spawn_arrival(now, self.player_state.level);
        self.wild.push(e);
        assert(self.wild@.take(before.len() as int) =~= before);
        true
    }

    /// One tick of `dt` milliseconds ending at time `now`, in order: the
    /// player moves, the wild shapes wander, the cone follows the player, the
    /// encounters in it are resolved, a level-up redraws the shapes of the
    /// level reached, a death removes the cone, and the spawn timer runs.
    /// A dead player's round stands still.
    pub fn tick(
        &mut self,
        dt: u64,
        now: u64,
        movement: Option<Point>,
        cursor: Option<Point>,
    ) -> (r: Outcomes)
        requires
            old(self).wf(),
            movement matches Some(m) ==> is_direction(m),
            cursor matches Some(c) ==> within(c, DIRECTION_INPUT_LIMIT as int),
        ensures
            final(self).wf(),
            old(self).player_state.dead ==> {
                &&& final(self).player_state == old(self).player_state
                &&& final(self).player == old(self).player
                &&& final(self).field_of_view == old(self).field_of_view
                &&& final(self).wild@ == old(self).wild@
                &&& final(self).befriended@ == old(self).befriended@
                &&& final(self).timer == old(self).timer
                &&& r == Outcomes::spec_none()
            },
            final(self).player_state.level >= old(self).player_state.level,
            old(self).player_state.dead ==> final(self).player_state.dead,
            final(self).befriended@.len() >= old(self).befriended@.len(),
            final(self).befriended@.take(old(self).befriended@.len() as int)
                == old(self).befriended@,
            r.dying ==> final(self).player_state.dead && final(self).field_of_view is None,
            !old(self).player_state.dead ==> {
                &&& final(self).player == spec_move_player(
                    old(self).player,
                    movement,
                    cursor,
                    dt,
                    old(self).world.border,
                )
                &&& final(self).world == old(self).world
                &&& exists|moved: Seq<GameEntity>|
                    #[trigger] wandered_all(old(self).wild@, moved, dt, now, old(self).world.border)
                        && tick_result(*old(self), *final(self), moved, dt, now, r)
            },
    {
        if self.player_state.dead {
            return Outcomes::none();
        }
        let border = self.world.border;
        let ghost bef0 = self.befriended@;
        let ghost level0 = self.player_state.level;
        move_player(&mut self.player, movement, cursor, dt, border);
        assert(within(self.player.position, border as int));
        let ghost wild0 = self.wild@;
        move_entities(&mut self.wild, dt, now, border);
        proof {
            assert forall|i: int| 0 <= i < self.wild.len() implies wild_ok(
                #[trigger] self.wild[i],
                border,
                level0,
            ) by {
                lemma_wandered_ok(wild0[i], self.wild[i], dt, now, border, level0);
            }
        }
        let fov = FieldOfView::new(self.player.position, self.player.look);
        self.field_of_view = Some(fov);
        let ghost wild1 = self.wild@;
        assert(wandered_all(wild0, wild1, dt, now, border));
        let ghost courage0 = self.player_state.courage as int;
        let outcomes = mark_entities_in_field_of_view(
            &mut self.player_state,
            &mut self.wild,
            &mut self.befriended,
            &fov,
            now,
        );
        proof {
            lemma_tally_ok(wild1, fov, level0, now, courage0, border);
            let t = tally(wild1, fov, level0, now, courage0);
            assert(self.befriended@.take(bef0.len() as int) =~= bef0);
            assert forall|i: int| 0 <= i < self.befriended.len() implies friend_ok(
                #[trigger] self.befriended[i],
                border,
            ) by {
                if i >= bef0.len() {
                    assert(self.befriended@[i] == t.friends[i - bef0.len()]);
                }
            }
        }
        if outcomes.level_up {
            let level = self.player_state.level;
            let ghost w = self.wild@;
            redraw_after_level_up(&mut self.wild, level);
            proof {
                assert forall|i: int| 0 <= i < self.wild.len() implies wild_ok(
                    #[trigger] self.wild[i],
                    border,
                    level,
                ) by {
                    lemma_redrawn_ok(w[i], border, level0);
                }
            }
        }
        if outcomes.dying {
            self.field_of_view = None;
        }
        let ghost wild2 = self.wild@;
        self.spawn_entity(dt, now);
        assert(self.befriended@.take(bef0.len() as int) =~= bef0);
        proof {
            let t = tally(wild1, fov, level0, now, courage0);
            let kept = if outcomes.level_up {
                t.wild.map_values(|e: GameEntity| e.spec_redrawn(self.player_state.level))
            } else {
                t.wild
            };
            assert(wild2 == kept);
            assert(fov == fov_of(self.player));
            assert(tick_result(*old(self), *self, wild1, dt, now, outcomes));
        }
        outcomes
    }
}

} // verus!
