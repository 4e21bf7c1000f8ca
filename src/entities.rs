//! The wandering shapes: their forms and levels, where they appear, how
//! they wander, and how they look to the player.
use vstd::prelude::*;
use crate::chance::random_in;
use crate::geometry::{
    is_direction, is_unit, lemma_quot_bounded, quot, quot_toward_zero, unit_direction, unit_of, within, Point,
    COORD_LIMIT, DIRECTION_INPUT_LIMIT, UNIT,
};

verus! {

/// Level of the threat form, above every level a player can use.
pub const THREAT_LEVEL: usize = 99;

/// Level of the highest ordinary form.
pub const MAX_FORM_LEVEL: usize = 5;

/// Radius of a drawn polygon: 30 world units.
pub const SHAPE_RADIUS: i64 = 30_000;

/// Distance from the centre at which the first shapes appear: 500 world units.
pub const SPAWN_RADIUS: i64 = 500_000;

/// Distance of the spawn corners from each axis: 250 world units.
pub const CORNER_OFFSET: i64 = 250_000;

/// Wandering speed in thousandths of a unit per millisecond (world units
/// per second).
pub const ENTITY_SPEED: i64 = 100;

/// Shortest wait before a shape turns on its own, in milliseconds.
pub const REDIRECT_BASE: u64 = 2000;

/// Largest extra wait drawn on top of `REDIRECT_BASE`.
pub const REDIRECT_SPREAD: u64 = 3000;

/// Number of shapes that open a round.
pub const INITIAL_COUNT: usize = 30;

/// The first this many shapes of a round take the lowest form, the same
/// number after them the next one.
pub const EASY_PREFIX: usize = 5;

/// Out of a hundred periodic spawns, how many take an ordinary form.
pub const ORDINARY_PERCENT: u64 = 80;

/// The shapes. Each ordinary form has a level from 0 to 5; `Enemy` is
/// the threat, hostile at every player level.
#[derive(Clone, Copy, Debug, PartialEq, Eq, Structural)]
pub enum EntityForm {
    Rectangle,
    Pentagon,
    Hexagon,
    Heptagon,
    Octagon,
    Nonagon,
    Enemy,
}

/// The polygon that draws an ordinary form.
#[derive(Clone, Copy, Debug, PartialEq, Eq, Structural)]
pub struct PolygonShape {
    pub sides: u32,
    pub radius: i64,
}

impl EntityForm {
    pub open spec fn spec_level(&self) -> usize {
        match self {
            EntityForm::Rectangle => 0,
            EntityForm::Pentagon => 1,
            EntityForm::Hexagon => 2,
            EntityForm::Heptagon => 3,
            EntityForm::Octagon => 4,
            EntityForm::Nonagon => 5,
            EntityForm::Enemy => THREAT_LEVEL,
        }
    }

    pub open spec fn spec_sides(&self) -> u32 {
        match self {
            EntityForm::Enemy => 0,
            _ => (self.spec_level() + 4) as u32,
        }
    }

    /// The form's level; it never changes.
    pub fn level(&self) -> (r: usize)
        ensures
            r == self.spec_level(),
    {
        match self {
            EntityForm::Rectangle => 0,
            EntityForm::Pentagon => 1,
            EntityForm::Hexagon => 2,
            EntityForm::Heptagon => 3,
            EntityForm::Octagon => 4,
            EntityForm::Nonagon => 5,
            EntityForm::Enemy => THREAT_LEVEL,
        }
    }

    /// Whether this is the threat form.
    pub fn is_threat(&self) -> (r: bool)
        ensures
            r == (*self is Enemy),
    {
        match self {
            EntityForm::Enemy => true,
            _ => false,
        }
    }

    /// The regular polygon that draws this form: four sides for the level 0
    /// form, one more for each level; none for the threat, which is drawn
    /// otherwise.
    pub fn to_shape(&self) -> (r: PolygonShape)
        ensures
            r.sides == self.spec_sides(),
            r.radius == SHAPE_RADIUS,
    {
        let sides: u32 = match self {
            EntityForm::Rectangle => 4,
            EntityForm::Pentagon => 5,
            EntityForm::Hexagon => 6,
            EntityForm::Heptagon => 7,
            EntityForm::Octagon => 8,
            EntityForm::Nonagon => 9,
            EntityForm::Enemy => 0,
        };
        PolygonShape { sides, radius: SHAPE_RADIUS }
    }

    pub open spec fn spec_from_roll(roll: u64) -> EntityForm {
        if roll == 0 {
            EntityForm::Rectangle
        } else if roll == 1 {
            EntityForm::Pentagon
        } else if roll == 2 {
            EntityForm::Hexagon
        } else if roll == 3 {
            EntityForm::Heptagon
        } else if roll == 4 {
            EntityForm::Octagon
        } else {
            EntityForm::Nonagon
        }
    }

    /// The ordinary form that a roll of `0..6` selects, in level order; a
    /// larger roll selects the highest.
    pub fn from_roll(roll: u64) -> (r: EntityForm)
        ensures
            r == Self::spec_from_roll(roll),
            !(r is Enemy),
    {
        if roll == 0 {
            EntityForm::Rectangle
        } else if roll == 1 {
            EntityForm::Pentagon
        } else if roll == 2 {
            EntityForm::Hexagon
        } else if roll == 3 {
            EntityForm::Heptagon
        } else if roll == 4 {
            EntityForm::Octagon
        } else {
            EntityForm::Nonagon
        }
    }
}

/// The four corners where shapes appear while a round goes on.
#[derive(Clone, Copy, Debug, PartialEq, Eq, Structural)]
pub enum Spawn {
    UpLeft,
    UpRight,
    BottomLeft,
    BottomRight,
}

impl Spawn {
    pub open spec fn spec_position(&self) -> Point {
        match self {
            Spawn::UpLeft => Point { x: CORNER_OFFSET, y: (-CORNER_OFFSET) as i64 },
            Spawn::UpRight => Point { x: CORNER_OFFSET, y: CORNER_OFFSET },
            Spawn::BottomLeft => Point { x: (-CORNER_OFFSET) as i64, y: (-CORNER_OFFSET) as i64 },
            Spawn::BottomRight => Point { x: (-CORNER_OFFSET) as i64, y: CORNER_OFFSET },
        }
    }

    /// Where the corner lies.
    pub fn get_position(&self) -> (r: Point)
        ensures
            r == self.spec_position(),
    {
        match self {
            Spawn::UpLeft => Point { x: CORNER_OFFSET, y: -CORNER_OFFSET },
            Spawn::UpRight => Point { x: CORNER_OFFSET, y: CORNER_OFFSET },
            Spawn::BottomLeft => Point { x: -CORNER_OFFSET, y: -CORNER_OFFSET },
            Spawn::BottomRight => Point { x: -CORNER_OFFSET, y: CORNER_OFFSET },
        }
    }

    pub open spec fn spec_from_roll(roll: u64) -> Spawn {
        if roll == 0 {
            Spawn::UpLeft
        } else if roll == 1 {
            Spawn::UpRight
        } else if roll == 2 {
            Spawn::BottomLeft
        } else {
            Spawn::BottomRight
        }
    }

    /// The corner that a roll of `0..4` selects; a larger roll selects the last.
    pub fn from_roll(roll: u64) -> (r: Spawn)
        ensures
            r == Self::spec_from_roll(roll),
    {
        if roll == 0 {
            Spawn::UpLeft
        } else if roll == 1 {
            Spawn::UpRight
        } else if roll == 2 {
            Spawn::BottomLeft
        } else {
            Spawn::BottomRight
        }
    }

    /// A corner, each equally likely.
    pub fn random() -> (r: Spawn) {
        let roll = random_in(0, 3);
        Self::from_roll(roll as u64)
    }
}


/// The outline that draws the threat: a square spiral winding in from a
/// corner of a 40-unit square to its centre, as the points a path runs
/// through.
pub open spec fn enemy_outline() -> Seq<Point> {
    seq![
        Point { x: (-20000) as i64, y: 20000 },
        Point { x: 20000, y: 20000 },
        Point { x: 20000, y: (-20000) as i64 },
        Point { x: (-20000) as i64, y: (-20000) as i64 },
        Point { x: (-20000) as i64, y: 15000 },
        Point { x: 15000, y: 15000 },
        Point { x: 15000, y: (-15000) as i64 },
        Point { x: (-15000) as i64, y: (-15000) as i64 },
        Point { x: (-15000) as i64, y: 10000 },
        Point { x: 10000, y: 10000 },
        Point { x: 10000, y: (-10000) as i64 },
        Point { x: (-10000) as i64, y: (-10000) as i64 },
        Point { x: (-10000) as i64, y: 5000 },
        Point { x: 5000, y: 5000 },
        Point { x: 5000, y: (-5000) as i64 },
        Point { x: (-5000) as i64, y: (-5000) as i64 },
        Point { x: (-5000) as i64, y: 0 },
        Point { x: 0, y: 0 },
    ]
}

/// The points of the threat's outline, in order.
pub fn build_enemy_geometry() -> (r: Vec<Point>)
    ensures
        r@ == enemy_outline(),
{
    let mut r: Vec<Point> = Vec::new();
    r.push(Point { x: -20000, y: 20000 });
    r.push(Point { x: 20000, y: 20000 });
    r.push(Point { x: 20000, y: -20000 });
    r.push(Point { x: -20000, y: -20000 });
    r.push(Point { x: -20000, y: 15000 });
    r.push(Point { x: 15000, y: 15000 });
    r.push(Point { x: 15000, y: -15000 });
    r.push(Point { x: -15000, y: -15000 });
    r.push(Point { x: -15000, y: 10000 });
    r.push(Point { x: 10000, y: 10000 });
    r.push(Point { x: 10000, y: -10000 });
    r.push(Point { x: -10000, y: -10000 });
    r.push(Point { x: -10000, y: 5000 });
    r.push(Point { x: 5000, y: 5000 });
    r.push(Point { x: 5000, y: -5000 });
    r.push(Point { x: -5000, y: -5000 });
    r.push(Point { x: -5000, y: 0 });
    r.push(Point { x: 0, y: 0 });
    assert(r@ =~= enemy_outline());
    r
}

/// `p` is `SPAWN_RADIUS` (500 world units) from the centre, up to the
/// rounding of a unit direction.
pub open spec fn on_spawn_circle(p: Point) -> bool {
    995_000 * 250_000 <= p.x * p.x + p.y * p.y <= 1_005_000 * 250_000
}

/// How a shape is drawn: the renderer needs no more than this class.
#[derive(Clone, Copy, Debug, PartialEq, Eq, Structural)]
pub enum Appearance {
    /// Wild, above the player's level: a plain disc.
    Veiled,
    /// Wild, at or below the player's level: its own polygon.
    Revealed,
    /// Befriended.
    Befriended,
    /// The threat form.
    Threat,
}

/// The class that a shape of `form` is drawn in at `player_level`.
pub open spec fn appearance_for(form: EntityForm, known: bool, player_level: usize) -> Appearance {
    if form is Enemy {
        Appearance::Threat
    } else if known {
        Appearance::Befriended
    } else if form.spec_level() <= player_level {
        Appearance::Revealed
    } else {
        Appearance::Veiled
    }
}

/// The class that a shape of `form` is drawn in at `player_level`.
pub fn classify(form: EntityForm, known: bool, player_level: usize) -> (r: Appearance)
    ensures
        r == appearance_for(form, known, player_level),
{
    if form.is_threat() {
        Appearance::Threat
    } else if known {
        Appearance::Befriended
    } else if form.level() <= player_level {
        Appearance::Revealed
    } else {
        Appearance::Veiled
    }
}

/// `now + d` milliseconds, held at the largest time.
pub open spec fn later(now: u64, d: int) -> u64 {
    if now + d > u64::MAX {
        u64::MAX
    } else {
        (now + d) as u64
    }
}

/// How far one component of a heading carries a shape in `dt` milliseconds.
pub open spec fn step_delta(c: int, dt: int) -> int {
    quot(c * ENTITY_SPEED * dt, UNIT as int)
}

/// One shape: its form, where it is and where it heads, its two clocks
/// (next turn, last hostile contact), whether it was befriended, and how
/// it is drawn.
#[derive(Clone, Copy, Debug, PartialEq, Eq, Structural)]
pub struct GameEntity {
    pub true_form: EntityForm,
    pub position: Point,
    pub current_direction: Point,
    pub last_contact: u64,
    pub next_direction_change: u64,
    pub known: bool,
    pub appearance: Appearance,
}

impl GameEntity {
    /// The form that the shape at `index` of a round's opening batch takes.
    pub open spec fn opening_form(index: usize, form_roll: u64) -> EntityForm {
        if index < EASY_PREFIX {
            EntityForm::Rectangle
        } else if index < 2 * EASY_PREFIX {
            EntityForm::Pentagon
        } else {
            EntityForm::spec_from_roll(form_roll)
        }
    }

    pub open spec fn spec_initial(
        index: usize,
        form_roll: u64,
        place: Point,
        heading: Point,
        delay: u64,
    ) -> GameEntity {
        let form = Self::opening_form(index, form_roll);
        let u = unit_of(place);
        GameEntity {
            true_form: form,
            position: Point { x: (u.x * (SPAWN_RADIUS / UNIT)) as i64, y: (u.y * (SPAWN_RADIUS / UNIT)) as i64 },
            current_direction: unit_of(heading),
            last_contact: 0,
            next_direction_change: (REDIRECT_BASE + delay) as u64,
            known: false,
            appearance: appearance_for(form, false, 0),
        }
    }

    /// The shape at `index` of a round's opening batch: its form from
    /// `form_roll` past the easy prefix, placed at `SPAWN_RADIUS` from the
    /// centre toward `place`, heading toward `heading`, with its first turn
    /// `REDIRECT_BASE + delay` into the round.
    pub fn initial(index: usize, form_roll: u64, place: Point, heading: Point, delay: u64) -> (r:
        GameEntity)
        requires
            within(place, DIRECTION_INPUT_LIMIT as int),
            within(heading, DIRECTION_INPUT_LIMIT as int),
            delay <= REDIRECT_SPREAD,
        ensures
            r == Self::spec_initial(index, form_roll, place, heading, delay),
            within(r.position, SPAWN_RADIUS as int),
            on_spawn_circle(r.position),
            is_unit(r.current_direction),
    {
        let form = if index < EASY_PREFIX {
            EntityForm::Rectangle
        } else if index < 2 * EASY_PREFIX {
            EntityForm::Pentagon
        } else {
            EntityForm::from_roll(form_roll)
        };
        let u = unit_direction(place);
        let scale: i64 = SPAWN_RADIUS / UNIT;
        assert(-500_000 <= u.x * scale <= 500_000 && -500_000 <= u.y * scale <= 500_000)
            by (nonlinear_arith)
            requires
                scale == 500,
                -1000 <= u.x <= 1000,
                -1000 <= u.y <= 1000,
        ;
        let position = Point { x: u.x * scale, y: u.y * scale };
        assert(on_spawn_circle(position)) by (nonlinear_arith)
            requires
                position.x == u.x * 500,
                position.y == u.y * 500,
                995_000 <= u.x * u.x + u.y * u.y <= 1_005_000,
        ;
        GameEntity {
            true_form: form,
            position,
            current_direction: unit_direction(heading),
            last_contact: 0,
            next_direction_change: REDIRECT_BASE + delay,
            known: false,
            appearance: classify(form, false, 0),
        }
    }

    pub open spec fn spec_arriving(
        corner: Spawn,
        form: EntityForm,
        heading: Point,
        now: u64,
        player_level: usize,
    ) -> GameEntity {
        GameEntity {
            true_form: form,
            position: corner.spec_position(),
            current_direction: unit_of(heading),
            last_contact: now,
            next_direction_change: later(now, REDIRECT_BASE as int),
            known: false,
            appearance: appearance_for(form, false, player_level),
        }
    }

    /// A shape that appears at `corner` while the round goes on.
    pub fn arriving(corner: Spawn, form: EntityForm, heading: Point, now: u64, player_level: usize) -> (r:
        GameEntity)
        requires
            within(heading, DIRECTION_INPUT_LIMIT as int),
        ensures
            r == Self::spec_arriving(corner, form, heading, now, player_level),
            is_unit(r.current_direction),
    {
        GameEntity {
            true_form: form,
            position: corner.get_position(),
            current_direction: unit_direction(heading),
            last_contact: now,
            next_direction_change: now.saturating_add(REDIRECT_BASE),
            known: false,
            appearance: classify(form, false, player_level),
        }
    }

    /// Where the shape would be after `dt` milliseconds, before the border
    /// is consulted.
    pub open spec fn tentative_x(&self, dt: u64) -> int {
        self.position.x + step_delta(self.current_direction.x as int, dt as int)
    }

    pub open spec fn tentative_y(&self, dt: u64) -> int {
        self.position.y + step_delta(self.current_direction.y as int, dt as int)
    }

    /// The step would leave `[-border, border]` on either axis.
    pub open spec fn bounces(&self, dt: u64, border: i64) -> bool {
        !(-border <= self.tentative_x(dt) <= border && -border <= self.tentative_y(dt) <= border)
    }

    /// Where the shape is after the step: it stays put where it would leave
    /// the square.
    pub open spec fn moved_position(&self, dt: u64, border: i64) -> Point {
        if self.bounces(dt, border) {
            self.position
        } else {
            Point { x: self.tentative_x(dt) as i64, y: self.tentative_y(dt) as i64 }
        }
    }

    /// The shape turns this step: its time came, or it met the border.
    pub open spec fn redirect_due(&self, dt: u64, now: u64, border: i64) -> bool {
        now >= self.next_direction_change || self.bounces(dt, border)
    }

    /// One step of wandering, with `heading` and `delay` the draws used if
    /// the shape turns.
    pub open spec fn spec_wander(
        &self,
        dt: u64,
        now: u64,
        border: i64,
        heading: Point,
        delay: u64,
    ) -> GameEntity {
        let moved = GameEntity { position: self.moved_position(dt, border), ..*self };
        if self.redirect_due(dt, now, border) {
            GameEntity {
                current_direction: unit_of(heading),
                next_direction_change: later(now, REDIRECT_BASE + delay),
                ..moved
            }
        } else {
            moved
        }
    }

    /// Where the step takes the shape, and whether it bounced.
    fn step_position(&self, dt: u64, border: i64) -> (r: (Point, bool))
        requires
            is_direction(self.current_direction),
            within(self.position, COORD_LIMIT as int),
            0 <= border <= COORD_LIMIT,
        ensures
            r.0 == self.moved_position(dt, border),
            r.1 == self.bounces(dt, border),
    {
        let dx = self.current_direction.x as i128;
        let dy = self.current_direction.y as i128;
        let t = dt as i128;
        proof {
            assert(1000 * 100 * t <= 100_000 * 0xffff_ffff_ffff_ffffi128) by (nonlinear_arith)
                requires
                    0 <= t <= 0xffff_ffff_ffff_ffffi128,
            ;
            assert(-(100_000 * t) <= dx * 100 * t <= 100_000 * t) by (nonlinear_arith)
                requires
                    -1000 <= dx <= 1000,
                    0 <= t,
            ;
            assert(-(100_000 * t) <= dy * 100 * t <= 100_000 * t) by (nonlinear_arith)
                requires
                    -1000 <= dy <= 1000,
                    0 <= t,
            ;
        }
        let qx = quot_toward_zero(dx * 100 * t, 1000);
        let qy = quot_toward_zero(dy * 100 * t, 1000);
        proof {
            assert(qx == step_delta(dx as int, dt as int));
            assert(qy == step_delta(dy as int, dt as int));
            lemma_quot_bounded(dx * 100 * t, 100_000 * t, 1000);
            lemma_quot_bounded(dy * 100 * t, 100_000 * t, 1000);
        }
        let tx: i128 = self.position.x as i128 + qx;
        let ty: i128 = self.position.y as i128 + qy;
        let b = border as i128;
        if -b <= tx && tx <= b && -b <= ty && ty <= b {
            (Point { x: tx as i64, y: ty as i64 }, false)
        } else {
            (self.position, true)
        }
    }

    /// Whether the shape turns this step.
    pub fn needs_redirect(&self, dt: u64, now: u64, border: i64) -> (r: bool)
        requires
            is_direction(self.current_direction),
            within(self.position, COORD_LIMIT as int),
            0 <= border <= COORD_LIMIT,
        ensures
            r == self.redirect_due(dt, now, border),
    {
        let (_, bounced) = self.step_position(dt, border);
        now >= self.next_direction_change || bounced
    }

    /// One step of wandering over `dt` milliseconds at time `now`: the
    /// shape advances along its heading unless that would take it out of
    /// `[-border, border]`; where it turns, it takes `heading` and waits
    /// `REDIRECT_BASE + delay` before its next turn.
    pub fn wander(&self, dt: u64, now: u64, border: i64, heading: Point, delay: u64) -> (r:
        GameEntity)
        requires
            is_direction(self.current_direction),
            within(self.position, COORD_LIMIT as int),
            0 <= border <= COORD_LIMIT,
            within(heading, DIRECTION_INPUT_LIMIT as int),
            delay <= REDIRECT_SPREAD,
        ensures
            r == self.spec_wander(dt, now, border, heading, delay),
            is_direction(r.current_direction),
            self.redirect_due(dt, now, border) ==> is_unit(r.current_direction),
    {
        let (position, bounced) = self.step_position(dt, border);
        let mut r = GameEntity { position, ..*self };
        if now >= self.next_direction_change || bounced {
            r.current_direction = unit_direction(heading);
            r.next_direction_change = now.saturating_add(REDIRECT_BASE + delay);
        }
        r
    }

    pub open spec fn spec_befriended(&self) -> GameEntity {
        GameEntity { known: true, appearance: Appearance::Befriended, ..*self }
    }

    /// The same shape, befriended.
    pub fn befriended(&self) -> (r: GameEntity)
        ensures
            r == self.spec_befriended(),
    {
        GameEntity { known: true, appearance: Appearance::Befriended, ..*self }
    }

    pub open spec fn spec_redrawn(&self, level: usize) -> GameEntity {
        if !self.known && !(self.true_form is Enemy) && self.true_form.spec_level() == level {
            GameEntity { appearance: Appearance::Revealed, ..*self }
        } else {
            *self
        }
    }
}

/// `new` is `old` after one step of wandering with some draw. A befriended
/// shape does not wander: it is left as it was. For a wild one the position
/// is the step's, and a turn takes a direction of unit length (up to
/// rounding) and a wait
/// between `REDIRECT_BASE` and `REDIRECT_BASE + REDIRECT_SPREAD`.
pub open spec fn wandered(old: GameEntity, new: GameEntity, dt: u64, now: u64, border: i64) -> bool {
    if old.known {
        new == old
    } else {
        &&& new == (GameEntity {
            position: old.moved_position(dt, border),
            current_direction: new.current_direction,
            next_direction_change: new.next_direction_change,
            ..old
        })
        &&& if old.redirect_due(dt, now, border) {
            &&& is_unit(new.current_direction)
            &&& later(now, REDIRECT_BASE as int) <= new.next_direction_change
            &&& new.next_direction_change <= later(now, (REDIRECT_BASE + REDIRECT_SPREAD) as int)
        } else {
            &&& new.current_direction == old.current_direction
            &&& new.next_direction_change == old.next_direction_change
        }
    }
}

/// A raw heading: both components drawn from `[-UNIT, UNIT]`.
pub fn draw_heading() -> (r: Point)
    ensures
        within(r, UNIT as int),
{
    let x = random_in(-UNIT, UNIT);
    let y = random_in(-UNIT, UNIT);
    Point { x, y }
}

/// A wait drawn from `[0, REDIRECT_SPREAD]`.
pub fn draw_delay() -> (r: u64)
    ensures
        r <= REDIRECT_SPREAD,
{
    random_in(0, REDIRECT_SPREAD as i64) as u64
}

/// Moves every wild shape of `wild` one step of `dt` milliseconds at time
/// `now`, drawing a new heading and wait for each shape that turns; a
/// befriended shape is left as it was.
pub fn move_entities(wild: &mut Vec<GameEntity>, dt: u64, now: u64, border: i64)
    requires
        0 <= border <= COORD_LIMIT,
        forall|i: int|
            0 <= i < old(wild).len() ==> {
                &&& is_direction((#[trigger] old(wild)[i]).current_direction)
                &&& within(old(wild)[i].position, COORD_LIMIT as int)
            },
    ensures
        final(wild).len() == old(wild).len(),
        forall|i: int|
            0 <= i < final(wild).len() ==> wandered(
                #[trigger] old(wild)[i],
                final(wild)[i],
                dt,
                now,
                border,
            ),
{
    let ghost start = wild@;
    let mut i: usize = 0;
    while i < wild.len()
        invariant
            0 <= i <= wild.len(),
            wild.len() == start.len(),
            0 <= border <= COORD_LIMIT,
            forall|j: int|
                0 <= j < start.len() ==> {
                    &&& is_direction((#[trigger] start[j]).current_direction)
                    &&& within(start[j].position, COORD_LIMIT as int)
                },
            forall|j: int| 0 <= j < i ==> wandered(#[trigger] start[j], wild@[j], dt, now, border),
            forall|j: int| i <= j < wild.len() ==> wild@[j] == start[j],
        decreases wild.len() - i,
    {
        let e = wild[i];
        assert(e == start[i as int]);
        if !e.known {
            let (heading, delay) = if e.needs_redirect(dt, now, border) {
                (draw_heading(), draw_delay())
            } else {
                (e.current_direction, 0)
            };
            let moved = e.wander(dt, now, border, heading, delay);
            wild.set(i, moved);
        }
        i = i + 1;
    }
}

/// A wandering shape inside `[-border, border]` on both axes is still
/// inside after any step, whatever it drew for its turn.
pub proof fn wander_stays_inside(
    e: GameEntity,
    dt: u64,
    now: u64,
    border: i64,
    heading: Point,
    delay: u64,
)
    requires
        within(e.position, border as int),
    ensures
        within(e.spec_wander(dt, now, border, heading, delay).position, border as int),
{
}

/// After the player reaches `level`, each wild shape of that level is
/// drawn as its own polygon; it stays wild.
pub fn redraw_after_level_up(wild: &mut Vec<GameEntity>, level: usize)
    ensures
        final(wild)@ == old(wild)@.map_values(|e: GameEntity| e.spec_redrawn(level)),
{
    let ghost start = wild@;
    let mut i: usize = 0;
    while i < wild.len()
        invariant
            0 <= i <= wild.len(),
            wild.len() == start.len(),
            forall|j: int| 0 <= j < i ==> wild@[j] == start[j].spec_redrawn(level),
            forall|j: int| i <= j < wild.len() ==> wild@[j] == start[j],
        decreases wild.len() - i,
    {
        let e = wild[i];
        if !e.known && !e.true_form.is_threat() && e.true_form.level() == level {
            wild.set(i, GameEntity { appearance: Appearance::Revealed, ..e });
        }
        i = i + 1;
    }
    assert(wild@ =~= start.map_values(|e: GameEntity| e.spec_redrawn(level)));
}

} // verus!
