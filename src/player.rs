//! The player's progression (courage, level, death) and the encounters in
//! the cone of sight that drive it.
use vstd::prelude::*;
use crate::entities::{Appearance, EntityForm, GameEntity};
use crate::geometry::{within, FieldOfView, COORD_LIMIT};

verus! {

/// Top of the courage gauge.
pub const COURAGE_MAX: u64 = 100;

/// Courage at the start of a round.
pub const COURAGE_START: u64 = 50;

/// Courage gained by a befriending, and lost to a hostile contact.
pub const COURAGE_STEP: i128 = 20;

/// Least time between two hostile contacts with one shape, in milliseconds.
pub const CONTACT_COOLDOWN: u64 = 2000;

/// The player's progression in a round.
#[derive(Clone, Copy, Debug, PartialEq, Eq, Structural)]
pub struct PlayerState {
    pub level: usize,
    pub courage: u64,
    pub dead: bool,
}

impl PlayerState {
    pub open spec fn wf(&self) -> bool {
        self.courage <= COURAGE_MAX
    }
}

impl Default for PlayerState {
    /// A fresh round: alive, level 0, courage at its starting value.
    fn default() -> (r: PlayerState)
        ensures
            r == (PlayerState { level: 0, courage: COURAGE_START, dead: false }),
    {
        PlayerState { level: 0, courage: COURAGE_START, dead: false }
    }
}

/// What a tick reports to listeners (sound, interface). Each flag says
/// that at least one such outcome occurred.
#[derive(Clone, Copy, Debug, PartialEq, Eq, Structural)]
pub struct Outcomes {
    pub befriend: bool,
    pub nope: bool,
    pub level_up: bool,
    pub dying: bool,
}

impl Outcomes {
    pub open spec fn spec_none() -> Outcomes {
        Outcomes { befriend: false, nope: false, level_up: false, dying: false }
    }

    /// No outcome.
    pub fn none() -> (r: Outcomes)
        ensures
            r == Self::spec_none(),
    {
        Outcomes { befriend: false, nope: false, level_up: false, dying: false }
    }
}

/// A shape of `form` is hostile to a player at `level`.
pub open spec fn hostile(form: EntityForm, level: usize) -> bool {
    form is Enemy || form.spec_level() > level
}

/// A hostile contact with `e` at `now` hurts: it is in view, hostile, and
/// its last contact was at least the cooldown ago.
pub open spec fn damages(e: GameEntity, fov: FieldOfView, level: usize, now: u64) -> bool {
    fov.covers(e.position) && hostile(e.true_form, level) && now >= e.last_contact
        + CONTACT_COOLDOWN
}

/// What the encounters of one tick have done so far.
pub struct Tally {
    /// Courage before clamping.
    pub courage: int,
    /// The shapes that stay wild, in order.
    pub wild: Seq<GameEntity>,
    /// The shapes befriended, in order.
    pub friends: Seq<GameEntity>,
    pub befriend: bool,
    pub nope: bool,
}

/// One shape's encounter.
pub open spec fn visit(t: Tally, e: GameEntity, fov: FieldOfView, level: usize, now: u64) -> Tally {
    if !fov.covers(e.position) {
        Tally { wild: t.wild.push(e), ..t }
    } else if !hostile(e.true_form, level) {
        Tally {
            courage: t.courage + COURAGE_STEP,
            friends: t.friends.push(e.spec_befriended()),
            befriend: true,
            ..t
        }
    } else if damages(e, fov, level, now) {
        let c = t.courage - COURAGE_STEP;
        Tally {
            courage: c,
            wild: t.wild.push(GameEntity { last_contact: now, ..e }),
            nope: t.nope || c > 0,
            ..t
        }
    } else {
        Tally { wild: t.wild.push(e), ..t }
    }
}

/// The encounters of the shapes `s`, in order, from courage `courage`.
pub open spec fn tally(
    s: Seq<GameEntity>,
    fov: FieldOfView,
    level: usize,
    now: u64,
    courage: int,
) -> Tally
    decreases s.len(),
{
    if s.len() == 0 {
        Tally { courage, wild: Seq::empty(), friends: Seq::empty(), befriend: false, nope: false }
    } else {
        visit(tally(s.drop_last(), fov, level, now, courage), s.last(), fov, level, now)
    }
}

/// The level after a level-up.
pub open spec fn next_level(level: usize) -> usize {
    if level < usize::MAX {
        (level + 1) as usize
    } else {
        level
    }
}

/// `c` clamped to the gauge.
pub open spec fn clamp_courage(c: int) -> int {
    if c < 0 {
        0
    } else if c > COURAGE_MAX {
        COURAGE_MAX as int
    } else {
        c
    }
}

/// The player after a tick's encounters left courage `c` before clamping:
/// a full gauge levels up and empties, an empty one kills.
pub open spec fn settle(p: PlayerState, c: int) -> PlayerState {
    let k = clamp_courage(c);
    if k >= COURAGE_MAX {
        PlayerState { level: next_level(p.level), courage: 0, dead: p.dead }
    } else if k <= 0 {
        PlayerState { level: p.level, courage: 0, dead: true }
    } else {
        PlayerState { level: p.level, courage: k as u64, dead: p.dead }
    }
}

/// Settle the player after encounters that left courage `c`; returns
/// whether it levelled up and whether it died.
pub fn settle_courage(player: &mut PlayerState, c: i128) -> (r: (bool, bool))
    ensures
        *final(player) == settle(*old(player), c as int),
        r.0 == (clamp_courage(c as int) >= COURAGE_MAX),
        r.1 == (clamp_courage(c as int) <= 0),
        final(player).wf(),
{
    let k: u64 = if c < 0 {
        0
    } else if c > 100 {
        100
    } else {
        c as u64
    };
    if k >= COURAGE_MAX {
        player.courage = 0;
        player.level = player.level.saturating_add(1);
        (true, false)
    } else if k == 0 {
        player.courage = 0;
        player.dead = true;
        (false, true)
    } else {
        player.courage = k;
        (false, false)
    }
}


/// Every shape lies within the coordinate limit.
pub open spec fn all_within(s: Seq<GameEntity>) -> bool {
    forall|i: int| 0 <= i < s.len() ==> within(#[trigger] s[i].position, COORD_LIMIT as int)
}

/// One tick of encounters in the cone `fov` at time `now`, for a living
/// player. Each wild shape in view is befriended if its level is at most
/// the player's (it moves to `befriended`, courage +20), or, if hostile and
/// its cooldown has run out, hurts (courage -20, its contact time becomes
/// `now`; `nope` unless courage, before clamping, is down to zero). Then
/// courage is clamped to the gauge; a full gauge levels up and empties, an
/// empty one kills. A dead player is left as is, with no outcome.
pub fn mark_entities_in_field_of_view(
    player: &mut PlayerState,
    wild: &mut Vec<GameEntity>,
    befriended: &mut Vec<GameEntity>,
    fov: &FieldOfView,
    now: u64,
) -> (r: Outcomes)
    requires
        old(player).wf(),
        fov.wf(),
        all_within(old(wild)@),
    ensures
        final(player).wf(),
        old(player).dead ==> {
            &&& *final(player) == *old(player)
            &&& final(wild)@ == old(wild)@
            &&& final(befriended)@ == old(befriended)@
            &&& r == Outcomes::spec_none()
        },
        !old(player).dead ==> {
            let t = tally(old(wild)@, *fov, old(player).level, now, old(player).courage as int);
            &&& final(wild)@ == t.wild
            &&& final(befriended)@ == old(befriended)@ + t.friends
            &&& *final(player) == settle(*old(player), t.courage)
            &&& r.befriend == t.befriend
            &&& r.nope == t.nope
            &&& r.level_up == (clamp_courage(t.courage) >= COURAGE_MAX)
            &&& r.dying == (clamp_courage(t.courage) <= 0)
        },
{
    if player.dead {
        return Outcomes::none();
    }
    let ghost src = wild@;
    let ghost bef0 = befriended@;
    let level = player.level;
    let c0: i128 = player.courage as i128;
    let mut c: i128 = c0;
    let mut kept: Vec<GameEntity> = Vec::new();
    let mut befriend = false;
    let mut nope = false;
    let n = wild.len();
    let mut i: usize = 0;
    while i < n
        invariant
            n == wild.len(),
            wild@ == src,
            all_within(src),
            fov.wf(),
            0 <= i <= n,
            c0 - COURAGE_STEP * i <= c <= c0 + COURAGE_STEP * i,
            0 <= c0 <= 100,
            ({
                let t = tally(src.take(i as int), *fov, level, now, c0 as int);
                &&& kept@ == t.wild
                &&& befriended@ == bef0 + t.friends
                &&& c == t.courage
                &&& befriend == t.befriend
                &&& nope == t.nope
            }),
        decreases n - i,
    {
        let e = wild[i];
        proof {
            assert(src.take(i + 1).drop_last() =~= src.take(i as int));
            assert(src.take(i + 1).last() == src[i as int]);
            assert(within(src[i as int].position, COORD_LIMIT as int));
        }
        if fov.contains(e.position) {
            if !e.true_form.is_threat() && e.true_form.level() <= level {
                befriended.push(e.befriended());
                c = c + COURAGE_STEP;
                befriend = true;
            } else if now >= e.last_contact && now - e.last_contact >= CONTACT_COOLDOWN {
                c = c - COURAGE_STEP;
                if c > 0 {
                    nope = true;
                }
                kept.push(GameEntity { last_contact: now, ..e });
            } else {
                kept.push(e);
            }
        } else {
            kept.push(e);
        }
        proof {
            assert(befriended@ == bef0 + tally(src.take(i + 1), *fov, level, now, c0 as int).friends);
        }
        i = i + 1;
    }
    proof {
        assert(src.take(n as int) =~= src);
    }
    *wild = kept;
    let (level_up, dying) = settle_courage(player, c);
    Outcomes { befriend, nope, level_up, dying }
}


/// Whatever courage a tick's encounters leave before clamping, the gauge
/// afterwards reads between 0 and 100.
pub proof fn courage_stays_on_gauge(p: PlayerState, c: int)
    ensures
        0 <= settle(p, c).courage <= COURAGE_MAX,
        settle(p, c).wf(),
{
}

/// Settling never lowers the level, and a dead player stays dead.
pub proof fn level_never_falls(p: PlayerState, c: int)
    ensures
        settle(p, c).level >= p.level,
        p.dead ==> settle(p, c).dead,
{
}

/// Every shape that a tick befriends is known and drawn as befriended.
pub proof fn befriending_is_final(
    s: Seq<GameEntity>,
    fov: FieldOfView,
    level: usize,
    now: u64,
    courage: int,
)
    ensures
        forall|j: int|
            0 <= j < tally(s, fov, level, now, courage).friends.len() ==> {
                &&& (#[trigger] tally(s, fov, level, now, courage).friends[j]).known
                &&& tally(s, fov, level, now, courage).friends[j].appearance
                    == Appearance::Befriended
            },
    decreases s.len(),
{
    if s.len() > 0 {
        befriending_is_final(s.drop_last(), fov, level, now, courage);
        let t = tally(s.drop_last(), fov, level, now, courage);
        let t2 = tally(s, fov, level, now, courage);
        assert forall|j: int| 0 <= j < t2.friends.len() implies (#[trigger] t2.friends[j]).known
            && t2.friends[j].appearance == Appearance::Befriended by {
            if j < t.friends.len() {
                assert(t2.friends[j] == t.friends[j]);
            }
        }
    }
}

/// A shape in view whose level is at most the player's (the threat form
/// aside) is befriended within the tick, and no shape left wild is both in
/// view and befriendable.
pub proof fn befriending_is_inclusive(
    s: Seq<GameEntity>,
    fov: FieldOfView,
    level: usize,
    now: u64,
    courage: int,
    i: int,
)
    requires
        0 <= i < s.len(),
        fov.covers(s[i].position),
        !(s[i].true_form is Enemy),
        s[i].true_form.spec_level() <= level,
    ensures
        tally(s, fov, level, now, courage).friends.contains(s[i].spec_befriended()),
        forall|j: int|
            0 <= j < tally(s, fov, level, now, courage).wild.len() ==> {
                let w = #[trigger] tally(s, fov, level, now, courage).wild[j];
                !fov.covers(w.position) || hostile(w.true_form, level)
            },
    decreases s.len(),
{
    lemma_wild_not_befriendable(s, fov, level, now, courage);
    let t = tally(s.drop_last(), fov, level, now, courage);
    let t2 = tally(s, fov, level, now, courage);
    if i == s.len() - 1 {
        assert(t2.friends.last() == s[i].spec_befriended());
    } else {
        befriending_is_inclusive(s.drop_last(), fov, level, now, courage, i);
        assert(s.drop_last()[i] == s[i]);
        let k = choose|k: int| 0 <= k < t.friends.len() && t.friends[k] == s[i].spec_befriended();
        assert(t2.friends[k] == t.friends[k]);
    }
}

proof fn lemma_wild_not_befriendable(
    s: Seq<GameEntity>,
    fov: FieldOfView,
    level: usize,
    now: u64,
    courage: int,
)
    ensures
        forall|j: int|
            0 <= j < tally(s, fov, level, now, courage).wild.len() ==> {
                let w = #[trigger] tally(s, fov, level, now, courage).wild[j];
                !fov.covers(w.position) || hostile(w.true_form, level)
            },
    decreases s.len(),
{
    if s.len() > 0 {
        lemma_wild_not_befriendable(s.drop_last(), fov, level, now, courage);
    }
}

/// Once a shape has hurt the player at `first`, meeting it again before the
/// cooldown has run, in any cone and at any level, leaves courage and the
/// outcomes as they were: hostile contacts with one shape are at least the
/// cooldown apart.
pub proof fn threat_cooldown(
    e: GameEntity,
    fov: FieldOfView,
    level: usize,
    first: u64,
    t: Tally,
    later_fov: FieldOfView,
    later_level: usize,
    second: u64,
)
    requires
        damages(e, fov, level, first),
        second < first + CONTACT_COOLDOWN,
        hostile(e.true_form, later_level),
    ensures
        !damages(GameEntity { last_contact: first, ..e }, later_fov, later_level, second),
        visit(t, GameEntity { last_contact: first, ..e }, later_fov, later_level, second).courage
            == t.courage,
        visit(t, GameEntity { last_contact: first, ..e }, later_fov, later_level, second).nope
            == t.nope,
{
}


/// A tally with nothing counted yet, from courage `courage`.
pub open spec fn empty_tally(courage: int) -> Tally {
    Tally { courage, wild: Seq::empty(), friends: Seq::empty(), befriend: false, nope: false }
}

/// The hostile shape `e` after being met in the cone `fov`, at `level`, at
/// each of `times` in turn, as one tick's encounters leave it.
pub open spec fn met_over(e: GameEntity, fov: FieldOfView, level: usize, times: Seq<u64>) -> GameEntity
    decreases times.len(),
{
    if times.len() == 0 {
        e
    } else {
        let prev = met_over(e, fov, level, times.drop_last());
        visit(empty_tally(0), prev, fov, level, times.last()).wild[0]
    }
}

proof fn lemma_met_over_contact(
    e: GameEntity,
    fov: FieldOfView,
    level: usize,
    times: Seq<u64>,
    i: int,
    k: int,
)
    requires
        hostile(e.true_form, level),
        forall|a: int, b: int| 0 <= a <= b < times.len() ==> times[a] <= times[b],
        0 <= i < k <= times.len(),
        damages(met_over(e, fov, level, times.take(i)), fov, level, times[i]),
    ensures
        met_over(e, fov, level, times.take(k)).last_contact >= times[i],
        met_over(e, fov, level, times.take(k)).true_form == e.true_form,
        met_over(e, fov, level, times.take(k)).position == e.position,
    decreases k,
{
    lemma_met_over_form(e, fov, level, times.take(k));
    assert(times.take(k).drop_last() =~= times.take(k - 1));
    assert(times.take(k).last() == times[k - 1]);
    if k > i + 1 {
        lemma_met_over_contact(e, fov, level, times, i, k - 1);
    }
}

proof fn lemma_met_over_form(e: GameEntity, fov: FieldOfView, level: usize, times: Seq<u64>)
    requires
        hostile(e.true_form, level),
    ensures
        met_over(e, fov, level, times).true_form == e.true_form,
        met_over(e, fov, level, times).position == e.position,
    decreases times.len(),
{
    if times.len() > 0 {
        lemma_met_over_form(e, fov, level, times.drop_last());
    }
}

/// A hostile shape met again and again, at times that never go back, hurts
/// the player at most once per cooldown: any two of its contacts are at
/// least `CONTACT_COOLDOWN` apart, however often it is met in between.
pub proof fn threat_contacts_are_spaced(
    e: GameEntity,
    fov: FieldOfView,
    level: usize,
    times: Seq<u64>,
    i: int,
    j: int,
)
    requires
        hostile(e.true_form, level),
        forall|a: int, b: int| 0 <= a <= b < times.len() ==> times[a] <= times[b],
        0 <= i < j < times.len(),
        damages(met_over(e, fov, level, times.take(i)), fov, level, times[i]),
        damages(met_over(e, fov, level, times.take(j)), fov, level, times[j]),
    ensures
        times[j] >= times[i] + CONTACT_COOLDOWN,
{
    lemma_met_over_contact(e, fov, level, times, i, j);
}

} // verus!
