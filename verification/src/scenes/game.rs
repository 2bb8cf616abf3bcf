use vstd::prelude::*;
use rand::rngs::StdRng;
use crate::geometry::Vec2;
use crate::bullet::{self, Bullet, TURN_HEIGHT};
use crate::enemy::Enemy;
use crate::info::{WINDOW_WIDTH, WINDOW_HEIGHT};
use crate::rng::{rng_from_seed, seeded_rng, gen_range_i32, gen_range_usize};
use crate::scenes::SceneChange;
use crate::assets::{TextureName, AnimationName};

verus! {

/// The phase the game is in.
#[derive(Debug, Clone, Copy, PartialEq, Eq, Hash, Structural)]
pub enum State {
    /// Playing, the fire button is up.
    Normal,
    /// Playing, a shot is being charged.
    Pressed,
    /// The player has run out of life.
    Dead,
    /// The game is paused.
    Pause,
}

/// What the application has to do for the player after a frame: play a
/// sound, make the gamepad vibrate or update a text.
#[derive(Debug, Clone, Copy, PartialEq, Eq, Structural)]
pub enum Effect {
    /// A new level was reached.
    LevelUp,
    /// Charging a shot has started.
    ChargeStarted,
    /// One more unit of force was charged; `force` is the charge now.
    Charged { force: i32 },
    /// A bullet of the given kind was fired.
    Shot { kind: i32 },
    /// The player died with the given score.
    PlayerDied { score: i32 },
    /// A bullet hit an enemy; `score` is the score now.
    EnemyHit { score: i32 },
    /// An enemy reached the bottom line and hurt the player.
    PlayerHurt,
    /// A returning bullet was caught and its force became life again.
    LifeCollected,
}

/// The values drawn from the random generator for one enemy spawn: the extra
/// speed (0 when none is drawn) and the column index.
#[derive(Debug, Clone, Copy)]
pub struct SpawnRoll {
    pub speed: i32,
    pub column: usize,
}

/// Frames between two presses of a held direction button.
pub const TIMEOUT_MAX: i32 = 8;

/// The height of the bottom line, where the player stands.
pub const MAX_BOTTOM: i32 = 412;

/// Life at the start of a game.
pub const START_LIFE: i32 = 10;

/// The abstract state of a game scene.
pub struct GameModel {
    pub state: State,
    pub tick: i32,
    pub tick_max: i32,
    pub life: i32,
    pub level: i32,
    pub force: i32,
    pub score: i32,
    pub count_spawn: i32,
    pub spawn_rate: i32,
    pub player_position: Vec2,
    pub bullets: Seq<Bullet>,
    pub enemies: Seq<Enemy>,
    pub input_timeout: i32,
}

/// `v` limited to `lo..=hi`.
pub open spec fn clamp(v: int, lo: int, hi: int) -> int {
    if v < lo {
        lo
    } else if v > hi {
        hi
    } else {
        v
    }
}

fn clamp_i32(v: i32, lo: i32, hi: i32) -> (r: i32)
    requires
        lo <= hi,
    ensures
        r == clamp(v as int, lo as int, hi as int),
{
    if v < lo {
        lo
    } else if v > hi {
        hi
    } else {
        v
    }
}

// ---------------------------------------------------------------------------
// Spawning enemies

/// The columns in which enemies may appear on a level.
pub open spec fn spawn_columns(level: i32) -> Seq<i32> {
    if level <= 2 {
        seq![80i32, 100, 120, 140, 160]
    } else if level <= 4 {
        seq![60i32, 80, 100, 140, 160, 180, 200]
    } else if level == 5 {
        seq![40i32, 60, 80, 100, 140, 160, 180, 200]
    } else if level == 6 {
        seq![80i32, 100, 120, 160, 180]
    } else if level == 7 {
        seq![80i32, 100, 120, 140, 160]
    } else if level == 8 {
        seq![40i32, 80, 120, 160, 200]
    } else {
        seq![40i32, 60, 80, 100, 120, 140, 160, 180, 200]
    }
}

/// How many enemies may be on the field at once on a level.
pub open spec fn max_enemies(level: i32) -> i32 {
    if level == 5 {
        4
    } else if level == 7 {
        5
    } else if level == 8 {
        6
    } else {
        level
    }
}

/// The range `[lo, hi)` from which the extra speed of the next enemy is
/// drawn, or `None` when no extra speed is drawn, by the level and the number
/// of enemies spawned on it so far.
pub open spec fn speed_roll_range(level: i32, count: i32) -> Option<(i32, i32)> {
    if level <= 2 {
        None
    } else if level <= 4 {
        Some((0i32, 2i32))
    } else if level == 5 {
        None
    } else if level == 6 {
        if count % 5 == 0 { Some((1i32, 3i32)) } else { None }
    } else if level == 7 {
        Some((0i32, 2i32))
    } else if level == 8 {
        None
    } else if count % 10 == 0 {
        Some((1i32, 3i32))
    } else if count % 4 == 0 {
        Some((0i32, 2i32))
    } else {
        None
    }
}

/// Whether a roll is one that the generator can produce for a spawn on this
/// level after `count` spawns.
pub open spec fn roll_fits(level: i32, count: i32, roll: SpawnRoll) -> bool {
    &&& roll.column < spawn_columns(level).len()
    &&& match speed_roll_range(level, count) {
        None => roll.speed == 0,
        Some((lo, hi)) => lo <= roll.speed < hi,
    }
}

/// The enemy spawned in column `x` with extra speed `speed`: it appears at
/// height -20 and walks down at `1 + speed` pixels per frame; with extra
/// speed 2 it is a blue enemy with two lives.
pub open spec fn spawned_enemy(x: i32, speed: i32) -> Enemy {
    Enemy {
        position: Vec2 { x, y: -20i32 },
        area: (19, 17),
        velocity: Vec2 { x: 0i32, y: (1 + speed) as i32 },
        dead: false,
        life: if speed == 2 { 2 } else { 1 },
    }
}

/// How many spawns a level lasts.
pub open spec fn level_length(level: i32) -> int {
    10 * clamp(level as int, 1, 8)
}

/// One spawn step: with fewer enemies than allowed on the level, a new enemy
/// appears in the rolled column and the spawn count goes up; once the level
/// has seen `level_length` spawns the next level starts (with an effect).
pub open spec fn spec_spawn(m: GameModel, roll: SpawnRoll) -> (GameModel, Seq<Effect>) {
    let x = spawn_columns(m.level)[roll.column as int];
    let grow = m.enemies.len() < max_enemies(m.level);
    let enemies = if grow { m.enemies.push(spawned_enemy(x, roll.speed)) } else { m.enemies };
    let count = if grow { m.count_spawn + 1 } else { m.count_spawn as int };
    if count >= level_length(m.level) {
        (
            GameModel { enemies, count_spawn: 0, level: (m.level + 1) as i32, ..m },
            seq![Effect::LevelUp],
        )
    } else {
        (GameModel { enemies, count_spawn: count as i32, ..m }, Seq::empty())
    }
}

fn spawn_columns_exec(level: i32) -> (v: Vec<i32>)
    ensures
        v@ == spawn_columns(level),
{
    let v = if level <= 2 {
        vec![80, 100, 120, 140, 160]
    } else if level <= 4 {
        vec![60, 80, 100, 140, 160, 180, 200]
    } else if level == 5 {
        vec![40, 60, 80, 100, 140, 160, 180, 200]
    } else if level == 6 {
        vec![80, 100, 120, 160, 180]
    } else if level == 7 {
        vec![80, 100, 120, 140, 160]
    } else if level == 8 {
        vec![40, 80, 120, 160, 200]
    } else {
        vec![40, 60, 80, 100, 120, 140, 160, 180, 200]
    };
    assert(v@ =~= spawn_columns(level));
    v
}



/// The buttons the game reads in one frame (keyboard and gamepad combined).
#[derive(Debug, Clone, Copy)]
pub struct GameInput {
    /// Right arrow or gamepad right went down this frame.
    pub right_pressed: bool,
    /// Left arrow or gamepad left went down this frame.
    pub left_pressed: bool,
    /// Up arrow or the right shoulder went down this frame.
    pub up_pressed: bool,
    /// Down arrow or the left shoulder went down this frame.
    pub down_pressed: bool,
    /// Right arrow or gamepad right is held.
    pub right_down: bool,
    /// Left arrow or gamepad left is held.
    pub left_down: bool,
    /// Space or gamepad A is held.
    pub fire_down: bool,
    /// Space or gamepad A was released this frame.
    pub fire_released: bool,
    /// Escape or gamepad Start was released this frame.
    pub pause_released: bool,
    /// Return or gamepad Start was released this frame.
    pub restart_released: bool,
    /// Backspace or gamepad Back was released this frame.
    pub back_released: bool,
}

// ---------------------------------------------------------------------------
// Moving the player

/// The player's movement in one frame. A fresh press of right or left moves
/// one lane (20 pixels) if that stays within `40..=200`; up and down jump to
/// the rightmost (200) and leftmost (40) lane; holding right or left repeats
/// the move every `TIMEOUT_MAX` frames. The first of these that applies wins.
pub open spec fn spec_move(m: GameModel, input: GameInput) -> GameModel {
    let x = m.player_position.x;
    let y = m.player_position.y;
    if input.right_pressed && x <= 180 {
        GameModel { input_timeout: TIMEOUT_MAX, player_position: Vec2 { x: (x + 20) as i32, y }, ..m }
    } else if input.up_pressed {
        GameModel { input_timeout: TIMEOUT_MAX, player_position: Vec2 { x: 200i32, y }, ..m }
    } else if input.down_pressed {
        GameModel { input_timeout: TIMEOUT_MAX, player_position: Vec2 { x: 40i32, y }, ..m }
    } else if input.left_pressed && x >= 60 {
        GameModel { input_timeout: TIMEOUT_MAX, player_position: Vec2 { x: (x - 20) as i32, y }, ..m }
    } else if input.right_down {
        let t = m.input_timeout - 1;
        if t <= 0 {
            let nx = if x <= 180 { (x + 20) as i32 } else { x };
            GameModel { input_timeout: TIMEOUT_MAX, player_position: Vec2 { x: nx, y }, ..m }
        } else {
            GameModel { input_timeout: t as i32, ..m }
        }
    } else if input.left_down {
        let t = m.input_timeout - 1;
        if t <= 0 {
            let nx = if x >= 60 { (x - 20) as i32 } else { x };
            GameModel { input_timeout: TIMEOUT_MAX, player_position: Vec2 { x: nx, y }, ..m }
        } else {
            GameModel { input_timeout: t as i32, ..m }
        }
    } else {
        m
    }
}

// ---------------------------------------------------------------------------
// Charging and firing

/// The bullet fired with `force` from `position`: it starts 10 pixels below
/// the given position, its kind is the force clamped to `1..=4`, and it
/// flies at the speed of its kind.
pub open spec fn fired_bullet(force: i32, position: Vec2) -> Bullet {
    let kind = clamp(force as int, 1, 4) as i32;
    Bullet {
        position: Vec2 { x: position.x, y: (position.y + 10) as i32 },
        area: (4, 4),
        velocity: bullet::spec_velocity_from_force(kind),
        broken: false,
        force,
        kind,
    }
}

/// Firing: the bullet joins the others and the shot is announced.
pub open spec fn spec_shoot(m: GameModel, force: i32, position: Vec2) -> (GameModel, Seq<Effect>) {
    let b = fired_bullet(force, position);
    (GameModel { bullets: m.bullets.push(b), ..m }, seq![Effect::Shot { kind: b.kind }])
}

/// The fire button in one frame. Holding it with life left starts a charge
/// (one life becomes one unit of force) and then, every `tick_max + 1`
/// frames, charges one unit more; releasing it with a charge fires a bullet
/// carrying the whole charge.
pub open spec fn spec_charge(m: GameModel, input: GameInput) -> (GameModel, Seq<Effect>) {
    if input.fire_down && m.life > 0 {
        if m.state == State::Normal {
            (
                GameModel {
                    state: State::Pressed,
                    force: (m.force + 1) as i32,
                    life: (m.life - 1) as i32,
                    ..m
                },
                seq![Effect::ChargeStarted],
            )
        } else if m.state == State::Pressed {
            let t = m.tick + 1;
            if t > m.tick_max {
                (
                    GameModel {
                        force: (m.force + 1) as i32,
                        life: (m.life - 1) as i32,
                        tick: 0,
                        ..m
                    },
                    seq![Effect::Charged { force: (m.force + 1) as i32 }],
                )
            } else {
                (GameModel { tick: t as i32, ..m }, Seq::empty())
            }
        } else {
            (m, Seq::empty())
        }
    } else if input.fire_released && m.force > 0 {
        let (m2, e) = spec_shoot(m, m.force, m.player_position);
        (GameModel { state: State::Normal, force: 0, tick: 0, ..m2 }, e)
    } else {
        (m, Seq::empty())
    }
}

/// A player with negative life is dead.
pub open spec fn spec_check_dead(m: GameModel) -> (GameModel, Seq<Effect>) {
    if m.life < 0 {
        (GameModel { state: State::Dead, ..m }, seq![Effect::PlayerDied { score: m.score }])
    } else {
        (m, Seq::empty())
    }
}

// ---------------------------------------------------------------------------
// Moving bullets and enemies

/// The bullets that are not broken, in their order.
pub open spec fn unbroken(s: Seq<Bullet>) -> Seq<Bullet>
    decreases s.len(),
{
    if s.len() == 0 {
        s
    } else {
        let r = unbroken(s.drop_last());
        if s.last().broken { r } else { r.push(s.last()) }
    }
}

/// The enemies that are not dead, in their order.
pub open spec fn living(s: Seq<Enemy>) -> Seq<Enemy>
    decreases s.len(),
{
    if s.len() == 0 {
        s
    } else {
        let r = living(s.drop_last());
        if s.last().dead { r } else { r.push(s.last()) }
    }
}

/// Broken bullets are dropped and the others move one frame.
pub open spec fn advanced_bullets(s: Seq<Bullet>) -> Seq<Bullet> {
    unbroken(s).map_values(|b: Bullet| b.spec_step())
}

/// Dead enemies are dropped and the others move one frame.
pub open spec fn advanced_enemies(s: Seq<Enemy>) -> Seq<Enemy> {
    living(s).map_values(|e: Enemy| e.spec_step())
}

/// The positions of some bullets.
pub open spec fn bullet_positions(s: Seq<Bullet>) -> Seq<Vec2> {
    s.map_values(|b: Bullet| b.position)
}

/// The positions of some enemies.
pub open spec fn enemy_positions(s: Seq<Enemy>) -> Seq<Vec2> {
    s.map_values(|e: Enemy| e.position)
}


// ---------------------------------------------------------------------------
// Where bullets and enemies may be

/// The speeds a bullet can fly at, up (negative) or down (positive).
pub open spec fn valid_speed(v: i32) -> bool {
    v == 3 || v == 5 || v == 8 || v == 10 || v == -3 || v == -5 || v == -8 || v == -10
}

/// What holds of every bullet of a game once the bullets have moved in a
/// frame: it flies straight up or down at one of the bullet speeds, within
/// the lanes `20..=220` and the heights `-40..=421`; above the turning height
/// it is already falling back and is back below it after the next move;
/// flying up it is between -30 and 414; and an unbroken bullet carries force.
pub open spec fn bullet_in_field(b: Bullet) -> bool {
    &&& b.area == (4i32, 4i32)
    &&& b.velocity.x == 0
    &&& valid_speed(b.velocity.y)
    &&& 20 <= b.position.x <= 220
    &&& -40 <= b.position.y <= 421
    &&& b.position.y < TURN_HEIGHT ==> b.velocity.y > 0 && b.position.y + b.velocity.y >= TURN_HEIGHT
    &&& b.velocity.y < 0 ==> TURN_HEIGHT <= b.position.y <= 414
    &&& !b.broken ==> b.force >= 1
}

/// What holds of every bullet between frames: besides `bullet_in_field`, an
/// unbroken bullet falling back is still above the bottom line (it is caught
/// as soon as it reaches it).
pub open spec fn bullet_ok(b: Bullet) -> bool {
    &&& bullet_in_field(b)
    &&& !b.broken && b.velocity.y > 0 ==> b.position.y < MAX_BOTTOM
}

/// What holds of every enemy of a game once the enemies have moved in a
/// frame: it walks straight down at most 3 pixels per frame, has at most two
/// lives, stays in the columns `40..=200` and at heights `-30..=414`, and a
/// blue enemy (two lives) has not been pushed back yet, so it is at -20 or
/// lower.
pub open spec fn enemy_in_field(e: Enemy) -> bool {
    &&& e.area == (19i32, 17i32)
    &&& e.velocity.x == 0
    &&& 0 <= e.velocity.y <= 3
    &&& 0 <= e.life <= 2
    &&& 40 <= e.position.x <= 200
    &&& -30 <= e.position.y <= 414
    &&& e.life == 2 ==> e.position.y >= -20
}

/// What holds of every enemy between frames: besides `enemy_in_field`, a
/// living enemy is above the bottom line (it hurts the player and is hit as
/// soon as it reaches it).
pub open spec fn enemy_ok(e: Enemy) -> bool {
    &&& enemy_in_field(e)
    &&& !e.dead ==> e.position.y < MAX_BOTTOM
}

// ---------------------------------------------------------------------------
// The life budget

/// The force a bullet still carries into the game: none once it is broken.
pub open spec fn carried_force(b: Bullet) -> int {
    if b.broken { 0 } else { b.force as int }
}

/// The force carried by all unbroken bullets.
pub open spec fn force_in_flight(s: Seq<Bullet>) -> int
    decreases s.len(),
{
    if s.len() == 0 {
        0
    } else {
        force_in_flight(s.drop_last()) + carried_force(s.last())
    }
}

/// The player's whole budget of life: the life left, the force being charged
/// and the force still flying in bullets.
pub open spec fn life_budget(m: GameModel) -> int {
    m.life + m.force + force_in_flight(m.bullets)
}

/// Replacing one bullet changes the force in flight by the difference of
/// what the two bullets carry.
pub proof fn lemma_force_in_flight_update(s: Seq<Bullet>, j: int, b: Bullet)
    requires
        0 <= j < s.len(),
    ensures
        force_in_flight(s.update(j, b)) == force_in_flight(s) - carried_force(s[j]) + carried_force(b),
    decreases s.len(),
{
    if j == s.len() - 1 {
        assert(s.update(j, b).drop_last() =~= s.drop_last());
    } else {
        lemma_force_in_flight_update(s.drop_last(), j, b);
        assert(s.update(j, b).drop_last() =~= s.drop_last().update(j, b));
    }
}

/// A new bullet adds what it carries to the force in flight.
pub proof fn lemma_force_in_flight_push(s: Seq<Bullet>, b: Bullet)
    ensures
        force_in_flight(s.push(b)) == force_in_flight(s) + carried_force(b),
{
    assert(s.push(b).drop_last() =~= s);
}

/// No bullet carries negative force, so neither do they all.
pub proof fn lemma_force_in_flight_nonneg(s: Seq<Bullet>)
    requires
        forall|i: int| 0 <= i < s.len() ==> carried_force(#[trigger] s[i]) >= 0,
    ensures
        force_in_flight(s) >= 0,
    decreases s.len(),
{
    if s.len() > 0 {
        let t = s.drop_last();
        assert forall|i: int| 0 <= i < t.len() implies carried_force(#[trigger] t[i]) >= 0 by {
            assert(t[i] == s[i]);
        }
        lemma_force_in_flight_nonneg(t);
        assert(carried_force(s[s.len() - 1]) >= 0);
    }
}


/// How many times the player was hurt by an enemy in some effects.
pub open spec fn count_hurts(s: Seq<Effect>) -> int
    decreases s.len(),
{
    if s.len() == 0 {
        0
    } else {
        count_hurts(s.drop_last()) + if s.last() == Effect::PlayerHurt { 1int } else { 0int }
    }
}

/// Hurts are counted separately in two runs of effects.
pub proof fn lemma_count_hurts_concat(a: Seq<Effect>, b: Seq<Effect>)
    ensures
        count_hurts(a + b) == count_hurts(a) + count_hurts(b),
    decreases b.len(),
{
    if b.len() == 0 {
        assert(a + b =~= a);
    } else {
        lemma_count_hurts_concat(a, b.drop_last());
        assert((a + b).drop_last() =~= a + b.drop_last());
    }
}


/// The number of hurts is between 0 and the number of effects.
pub proof fn lemma_count_hurts_nonneg(s: Seq<Effect>)
    ensures
        0 <= count_hurts(s) <= s.len(),
    decreases s.len(),
{
    if s.len() > 0 {
        lemma_count_hurts_nonneg(s.drop_last());
    }
}

proof fn lemma_count_hurts_push(a: Seq<Effect>, e: Effect)
    ensures
        count_hurts(a.push(e)) == count_hurts(a) + if e == Effect::PlayerHurt { 1int } else { 0int },
{
    assert(a.push(e).drop_last() =~= a);
}


/// Two game states that agree on everything but the bullets, the enemies,
/// the life and the score.
pub open spec fn same_counters(a: GameModel, b: GameModel) -> bool {
    &&& a.state == b.state
    &&& a.tick == b.tick
    &&& a.tick_max == b.tick_max
    &&& a.level == b.level
    &&& a.force == b.force
    &&& a.count_spawn == b.count_spawn
    &&& a.spawn_rate == b.spawn_rate
    &&& a.player_position == b.player_position
    &&& a.input_timeout == b.input_timeout
}


/// The lives left in some enemies, all together.
pub open spec fn enemy_lives(s: Seq<Enemy>) -> int
    decreases s.len(),
{
    if s.len() == 0 {
        0
    } else {
        enemy_lives(s.drop_last()) + s.last().life
    }
}

/// Replacing one enemy changes the lives left by the difference of the two
/// enemies' lives.
pub proof fn lemma_enemy_lives_update(s: Seq<Enemy>, i: int, e: Enemy)
    requires
        0 <= i < s.len(),
    ensures
        enemy_lives(s.update(i, e)) == enemy_lives(s) - s[i].life + e.life,
    decreases s.len(),
{
    if i == s.len() - 1 {
        assert(s.update(i, e).drop_last() =~= s.drop_last());
    } else {
        lemma_enemy_lives_update(s.drop_last(), i, e);
        assert(s.update(i, e).drop_last() =~= s.drop_last().update(i, e));
    }
}

// ---------------------------------------------------------------------------
// Bullets hitting enemies

/// The hit box of an enemy: `(x, y, width, height)`.
pub open spec fn enemy_box(e: Enemy) -> (i32, i32, i32, i32) {
    (e.position.x, e.position.y, e.area.0, e.area.1)
}

/// Whether a bullet's box overlaps the given enemy box (both boxes must
/// have a positive size).
pub open spec fn overlaps(r: (i32, i32, i32, i32), b: Bullet) -> bool {
    let (x, y, w, h) = r;
    let bx = b.position.x;
    let by = b.position.y;
    let bw = b.area.0;
    let bh = b.area.1;
    w > 0 && h > 0 && bw > 0 && bh > 0 && x < bx + bw && x + w > bx && y < by + bh && y + h > by
}

/// The points for a hit: 50, plus a bonus that grows the higher up the enemy
/// is (a fifth of its distance to height 480) times the bullet's force
/// clamped to `1..=4`.
pub open spec fn hit_points(e: Enemy, b: Bullet) -> int {
    50 + ((480 - e.position.y) / 5) * clamp(b.force as int, 1, 4)
}

/// `k` strikes of a bullet on an enemy: each strike, while the enemy has
/// life, hurts the enemy, spends one unit of the bullet's force and gives the
/// player one life back.
pub open spec fn strikes(e: Enemy, b: Bullet, life: int, k: nat) -> (Enemy, Bullet, int)
    decreases k,
{
    if k == 0 {
        (e, b, life)
    } else {
        let (e1, b1, l1) = strikes(e, b, life, (k - 1) as nat);
        if e1.life > 0 {
            (e1.spec_hurt(), b1.spec_consume(), l1 + 1)
        } else {
            (e1, b1, l1)
        }
    }
}

/// Bullet `j` against enemy `i` whose box was `r` when the enemy's turn
/// began: an unbroken bullet overlapping the box scores `hit_points` (with the
/// enemy as it is now) and then strikes the enemy as many times as the force
/// it had.
pub open spec fn clash_bullet(
    st: (GameModel, Seq<Effect>),
    i: int,
    r: (i32, i32, i32, i32),
    j: int,
) -> (GameModel, Seq<Effect>) {
    let (m, ef) = st;
    let e = m.enemies[i];
    let b = m.bullets[j];
    if !b.broken && overlaps(r, b) {
        let score = (m.score + hit_points(e, b)) as i32;
        let n: nat = if b.force > 0 { b.force as nat } else { 0 };
        let (e2, b2, l2) = strikes(e, b, m.life as int, n);
        (
            GameModel {
                enemies: m.enemies.update(i, e2),
                bullets: m.bullets.update(j, b2),
                score,
                life: l2 as i32,
                ..m
            },
            ef.push(Effect::EnemyHit { score }),
        )
    } else {
        st
    }
}

/// The first `n` bullets against enemy `i`, in order.
pub open spec fn clash_bullets(
    st: (GameModel, Seq<Effect>),
    i: int,
    r: (i32, i32, i32, i32),
    n: int,
) -> (GameModel, Seq<Effect>)
    decreases n,
{
    if n <= 0 {
        st
    } else {
        clash_bullet(clash_bullets(st, i, r, n - 1), i, r, n - 1)
    }
}

/// Enemy `i`'s turn: a living enemy meets every bullet, with its box taken
/// at the start of its turn.
pub open spec fn clash_enemy(st: (GameModel, Seq<Effect>), i: int) -> (GameModel, Seq<Effect>) {
    let e = st.0.enemies[i];
    if e.dead {
        st
    } else {
        clash_bullets(st, i, enemy_box(e), st.0.bullets.len() as int)
    }
}

/// The turns of the first `n` enemies, in order.
pub open spec fn clash_enemies(st: (GameModel, Seq<Effect>), n: int) -> (GameModel, Seq<Effect>)
    decreases n,
{
    if n <= 0 {
        st
    } else {
        clash_enemy(clash_enemies(st, n - 1), n - 1)
    }
}

/// All hits of bullets on enemies in one frame, with their effects.
pub open spec fn spec_collide(m: GameModel) -> (GameModel, Seq<Effect>) {
    clash_enemies((m, Seq::empty()), m.enemies.len() as int)
}



// ---------------------------------------------------------------------------
// The balance of a collision step

/// The shape of a game that the collision step keeps: `ne` enemies and `nb`
/// bullets, all in the field, and room in `i32` for the life the bullets
/// still carry.
pub open spec fn clash_ok(m: GameModel, ne: int, nb: int) -> bool {
    &&& m.enemies.len() == ne
    &&& m.bullets.len() == nb
    &&& forall|i: int| 0 <= i < ne ==> enemy_in_field(#[trigger] m.enemies[i])
    &&& forall|j: int| 0 <= j < nb ==> bullet_in_field(#[trigger] m.bullets[j])
    &&& m.life + force_in_flight(m.bullets) <= i32::MAX
}

proof fn lemma_strikes(e: Enemy, b: Bullet, life: int, k: nat)
    requires
        enemy_in_field(e),
        bullet_in_field(b),
        !b.broken,
        k <= b.force,
    ensures
        ({
            let (e2, b2, l2) = strikes(e, b, life, k);
            &&& enemy_in_field(e2)
            &&& bullet_in_field(b2)
            &&& b2.position == b.position
            &&& b2.force == b.force - (l2 - life)
            &&& (b2.broken <==> b2.force == 0)
            &&& 0 <= l2 - life <= k
            &&& l2 - life == e.life - e2.life
            &&& l2 - life == carried_force(b) - carried_force(b2)
        }),
    decreases k,
{
    if k > 0 {
        lemma_strikes(e, b, life, (k - 1) as nat);
    }
}

proof fn lemma_clash_bullets(st: (GameModel, Seq<Effect>), i: int, r: (i32, i32, i32, i32), n: int)
    requires
        clash_ok(st.0, st.0.enemies.len() as int, st.0.bullets.len() as int),
        0 <= i < st.0.enemies.len(),
        n <= st.0.bullets.len(),
    ensures
        ({
            let res = clash_bullets(st, i, r, n).0;
            &&& clash_ok(res, st.0.enemies.len() as int, st.0.bullets.len() as int)
            &&& res.life >= st.0.life
            &&& res.life + force_in_flight(res.bullets) == st.0.life + force_in_flight(st.0.bullets)
            &&& res.life + enemy_lives(res.enemies) == st.0.life + enemy_lives(st.0.enemies)
        }),
    decreases n,
{
    if n > 0 {
        lemma_clash_bullets(st, i, r, n - 1);
        let prev = clash_bullets(st, i, r, n - 1);
        let m = prev.0;
        let j = n - 1;
        let e = m.enemies[i];
        let b = m.bullets[j];
        assert(enemy_in_field(e));
        assert(bullet_in_field(b));
        if !b.broken && overlaps(r, b) {
            let k: nat = if b.force > 0 { b.force as nat } else { 0 };
            lemma_strikes(e, b, m.life as int, k);
            let (e2, b2, l2) = strikes(e, b, m.life as int, k);
            lemma_force_in_flight_update(m.bullets, j, b2);
            lemma_enemy_lives_update(m.enemies, i, e2);
            let others = m.bullets.update(j, Bullet { broken: true, ..b });
            lemma_force_in_flight_update(m.bullets, j, Bullet { broken: true, ..b });
            assert forall|q: int| 0 <= q < others.len() implies carried_force(#[trigger] others[q]) >= 0 by {
                if q != j {
                    assert(bullet_in_field(m.bullets[q]));
                }
            }
            lemma_force_in_flight_nonneg(others);
            let res = clash_bullet(prev, i, r, j).0;
            assert forall|q: int| 0 <= q < res.enemies.len() implies enemy_in_field(#[trigger] res.enemies[q]) by {
                if q != i {
                    assert(enemy_in_field(m.enemies[q]));
                }
            }
            assert forall|q: int| 0 <= q < res.bullets.len() implies bullet_in_field(#[trigger] res.bullets[q]) by {
                if q != j {
                    assert(bullet_in_field(m.bullets[q]));
                }
            }
        }
    }
}

proof fn lemma_clash_enemies(st: (GameModel, Seq<Effect>), n: int)
    requires
        clash_ok(st.0, st.0.enemies.len() as int, st.0.bullets.len() as int),
        n <= st.0.enemies.len(),
    ensures
        ({
            let res = clash_enemies(st, n).0;
            &&& clash_ok(res, st.0.enemies.len() as int, st.0.bullets.len() as int)
            &&& res.life >= st.0.life
            &&& res.life + force_in_flight(res.bullets) == st.0.life + force_in_flight(st.0.bullets)
            &&& res.life + enemy_lives(res.enemies) == st.0.life + enemy_lives(st.0.enemies)
        }),
    decreases n,
{
    if n > 0 {
        lemma_clash_enemies(st, n - 1);
        let prev = clash_enemies(st, n - 1);
        let e = prev.0.enemies[n - 1];
        if !e.dead {
            lemma_clash_bullets(prev, n - 1, enemy_box(e), prev.0.bullets.len() as int);
        }
    }
}

/// The balance of bullets hitting enemies: every life the player gets back
/// in a collision step is one unit of force spent by a bullet and one life
/// taken from an enemy, so the player's life grows by exactly the force the
/// bullets lost and by exactly the lives the enemies lost; the bullets and
/// enemies stay where they are, in the same number.
pub proof fn law_collision_balance(m: GameModel)
    requires
        clash_ok(m, m.enemies.len() as int, m.bullets.len() as int),
    ensures
        ({
            let res = spec_collide(m).0;
            &&& res.enemies.len() == m.enemies.len()
            &&& res.bullets.len() == m.bullets.len()
            &&& res.life >= m.life
            &&& res.life - m.life == force_in_flight(m.bullets) - force_in_flight(res.bullets)
            &&& res.life - m.life == enemy_lives(m.enemies) - enemy_lives(res.enemies)
        }),
{
    lemma_clash_enemies((m, Seq::empty()), m.enemies.len() as int);
}

// ---------------------------------------------------------------------------
// Enemies at the bottom line and bullets caught again

/// Enemy `i` at or below the bottom line and still alive costs the player
/// one life and is hit once.
pub open spec fn hurt_by_enemy(st: (GameModel, Seq<Effect>), i: int) -> (GameModel, Seq<Effect>) {
    let (m, ef) = st;
    let e = m.enemies[i];
    if e.position.y >= MAX_BOTTOM && !e.dead {
        (
            GameModel { life: (m.life - 1) as i32, enemies: m.enemies.update(i, e.spec_hurt()), ..m },
            ef.push(Effect::PlayerHurt),
        )
    } else {
        st
    }
}

/// The first `n` enemies checked against the bottom line, in order.
pub open spec fn hurt_by_enemies(st: (GameModel, Seq<Effect>), n: int) -> (GameModel, Seq<Effect>)
    decreases n,
{
    if n <= 0 {
        st
    } else {
        hurt_by_enemy(hurt_by_enemies(st, n - 1), n - 1)
    }
}

/// All enemies checked against the bottom line, with their effects.
pub open spec fn spec_hurt_check(m: GameModel) -> (GameModel, Seq<Effect>) {
    hurt_by_enemies((m, Seq::empty()), m.enemies.len() as int)
}

/// Bullet `j`, unbroken and falling back at or below the bottom line, is
/// caught: its force becomes life and the bullet breaks.
pub open spec fn catch_bullet(st: (GameModel, Seq<Effect>), j: int) -> (GameModel, Seq<Effect>) {
    let (m, ef) = st;
    let b = m.bullets[j];
    if b.position.y >= MAX_BOTTOM && !b.broken && b.spec_returning() {
        (
            GameModel {
                life: (m.life + b.force) as i32,
                bullets: m.bullets.update(j, Bullet { broken: true, ..b }),
                ..m
            },
            ef.push(Effect::LifeCollected),
        )
    } else {
        st
    }
}

/// The first `n` bullets checked for catching, in order.
pub open spec fn catch_bullets(st: (GameModel, Seq<Effect>), n: int) -> (GameModel, Seq<Effect>)
    decreases n,
{
    if n <= 0 {
        st
    } else {
        catch_bullet(catch_bullets(st, n - 1), n - 1)
    }
}

/// All bullets checked for catching, with their effects.
pub open spec fn spec_pickup(m: GameModel) -> (GameModel, Seq<Effect>) {
    catch_bullets((m, Seq::empty()), m.bullets.len() as int)
}


// ---------------------------------------------------------------------------
// A whole frame

/// Whether an enemy spawns in this frame: the game is running and the spawn
/// counter passes 20.
pub open spec fn spawns_this_frame(m: GameModel) -> bool {
    m.state != State::Dead && m.state != State::Pause && m.spawn_rate + 1 > 20
}

/// One frame of a running game: the spawn counter advances and every 21st
/// frame an enemy spawns; the player moves and charges or fires; a player
/// with negative life dies; bullets and enemies move; bullets hit enemies;
/// enemies at the bottom line hurt the player; returning bullets are caught.
/// Also returns the effects, in order, and the positions of the bullets and
/// enemies after they moved (for the trail particles).
pub open spec fn spec_play(m: GameModel, input: GameInput, roll: SpawnRoll) -> (
    GameModel,
    Seq<Effect>,
    Seq<Vec2>,
    Seq<Vec2>,
) {
    let (a, ea) = spec_play_input(m, input, roll);
    let (b, eb, bt, et) = spec_play_world(a);
    (b, ea + eb, bt, et)
}

/// The part of a frame that follows the spawn counter and the player's
/// buttons: spawning, moving, charging or firing, and dying.
pub open spec fn spec_play_input(m: GameModel, input: GameInput, roll: SpawnRoll) -> (
    GameModel,
    Seq<Effect>,
) {
    let m1 = GameModel { spawn_rate: (m.spawn_rate + 1) as i32, ..m };
    let (m2, e2) = if m1.spawn_rate > 20 {
        let (a, b) = spec_spawn(m1, roll);
        (GameModel { spawn_rate: 0, ..a }, b)
    } else {
        (m1, Seq::empty())
    };
    let m3 = spec_move(m2, input);
    let (m4, e4) = spec_charge(m3, input);
    let (m5, e5) = spec_check_dead(m4);
    (m5, e2 + e4 + e5)
}

/// The part of a frame in which the world moves: bullets and enemies move,
/// bullets hit enemies, enemies at the bottom line hurt the player and
/// returning bullets are caught.
pub open spec fn spec_play_world(m: GameModel) -> (GameModel, Seq<Effect>, Seq<Vec2>, Seq<Vec2>) {
    let bullets = advanced_bullets(m.bullets);
    let enemies = advanced_enemies(m.enemies);
    let m6 = GameModel { bullets, enemies, ..m };
    let (m7, e7) = spec_collide(m6);
    let (m8, e8) = spec_hurt_check(m7);
    let (m9, e9) = spec_pickup(m8);
    (m9, e7 + e8 + e9, bullet_positions(bullets), enemy_positions(enemies))
}

/// The game as `reset` leaves it: no bullets or enemies, score 0, full life,
/// nothing charged, level 1 from its start, and the player in the middle lane
/// at height 384; the tick, the spawn counter and the input timeout stay.
pub open spec fn spec_reset(m: GameModel) -> GameModel {
    GameModel {
        enemies: Seq::empty(),
        bullets: Seq::empty(),
        score: 0,
        state: State::Normal,
        life: START_LIFE,
        force: 0,
        level: 1,
        count_spawn: 0,
        player_position: Vec2 { x: 120i32, y: 384i32 },
        ..m
    }
}

/// The game as `GameScene::new` starts it.
pub open spec fn spec_new_game() -> GameModel {
    GameModel {
        state: State::Normal,
        tick: 0,
        tick_max: 10,
        life: START_LIFE,
        force: 0,
        score: 0,
        level: 1,
        count_spawn: 0,
        spawn_rate: 0,
        player_position: Vec2 { x: 120i32, y: 404i32 },
        bullets: Seq::empty(),
        enemies: Seq::empty(),
        input_timeout: 0,
    }
}

/// The pause button: it pauses a game in the normal state and resumes a
/// paused one.
pub open spec fn spec_toggle_pause(m: GameModel, input: GameInput) -> GameModel {
    if m.state == State::Normal && input.pause_released {
        GameModel { state: State::Pause, ..m }
    } else if m.state == State::Pause && input.pause_released {
        GameModel { state: State::Normal, ..m }
    } else {
        m
    }
}

/// Everything a frame produces.
pub struct FrameOutcome {
    pub model: GameModel,
    pub effects: Seq<Effect>,
    pub bullet_trail: Seq<Vec2>,
    pub enemy_trail: Seq<Vec2>,
    pub active: bool,
    pub change: SceneChange,
}

/// One frame of the game scene: a game that is neither dead nor paused plays
/// a frame (`spec_play`); then the pause button is handled; a dead game
/// restarts when asked to; and the back button leaves the scene.
pub open spec fn spec_frame(m: GameModel, input: GameInput, roll: SpawnRoll) -> FrameOutcome {
    let active = m.state != State::Dead && m.state != State::Pause;
    let (ma, ef, bt, et) = if active {
        spec_play(m, input, roll)
    } else {
        (m, Seq::empty(), Seq::empty(), Seq::empty())
    };
    let mp = spec_toggle_pause(ma, input);
    let mr = if mp.state == State::Dead && input.restart_released { spec_reset(mp) } else { mp };
    FrameOutcome {
        model: mr,
        effects: ef,
        bullet_trail: bt,
        enemy_trail: et,
        active,
        change: if input.back_released { SceneChange::Back } else { SceneChange::Stay },
    }
}


// ---------------------------------------------------------------------------
// The invariant of a game

/// What holds of the game scene between frames: the counters are in their
/// ranges, the player stands in one of the lanes `40..=200` at one of the
/// two heights, the life budget is at most the starting life, and every
/// bullet and enemy is where `bullet_ok` and `enemy_ok` say.
pub open spec fn game_inv(m: GameModel) -> bool {
    &&& m.tick_max == 10
    &&& 0 <= m.tick <= m.tick_max
    &&& 0 <= m.spawn_rate <= 20
    &&& 0 <= m.input_timeout <= TIMEOUT_MAX
    &&& m.level >= 1
    &&& 0 <= m.count_spawn < level_length(m.level)
    &&& 0 <= m.force <= START_LIFE
    &&& m.score >= 0
    &&& 40 <= m.player_position.x <= 200
    &&& m.player_position.x % 20 == 0
    &&& m.player_position.y == 404 || m.player_position.y == 384
    &&& life_budget(m) <= START_LIFE
    &&& forall|i: int| 0 <= i < m.bullets.len() ==> bullet_ok(#[trigger] m.bullets[i])
    &&& forall|i: int| 0 <= i < m.enemies.len() ==> enemy_ok(#[trigger] m.enemies[i])
}

/// The `i32` counters cannot overflow in the next frame: the level can go up
/// once more, the score can take the largest possible hit bonus for every
/// pair of an enemy and a bullet (one more of each may appear), and the life
/// can lose one unit for a charge and one for every enemy.
pub open spec fn frame_headroom(m: GameModel) -> bool {
    &&& m.level < i32::MAX
    &&& m.score + 458 * (m.enemies.len() + 1) * (m.bullets.len() + 1) <= i32::MAX
    &&& m.life - (m.enemies.len() + 2) >= i32::MIN
}


// ---------------------------------------------------------------------------
// Facts about single bullets and enemies

proof fn lemma_bullet_step_in_field(b: Bullet)
    requires
        bullet_ok(b),
        !b.broken,
    ensures
        bullet_in_field(b.spec_step()),
        b.spec_step().force == b.force,
        b.spec_step().broken == b.broken,
        b.can_step(),
{
}

proof fn lemma_enemy_step_in_field(e: Enemy)
    requires
        enemy_ok(e),
        !e.dead,
    ensures
        enemy_in_field(e.spec_step()),
        e.spec_step().dead == e.dead,
        e.can_step(),
{
}

proof fn lemma_columns_in_field(level: i32, c: int)
    requires
        0 <= c < spawn_columns(level).len(),
    ensures
        40 <= spawn_columns(level)[c] <= 200,
{
    if level <= 2 {
    } else if level <= 4 {
    } else if level == 5 {
    } else if level == 6 {
    } else if level == 7 {
    } else if level == 8 {
    } else {
    }
}

proof fn lemma_spawned_enemy_ok(level: i32, count: i32, roll: SpawnRoll)
    requires
        roll_fits(level, count, roll),
    ensures
        enemy_ok(spawned_enemy(spawn_columns(level)[roll.column as int], roll.speed)),
{
    lemma_columns_in_field(level, roll.column as int);
}


proof fn lemma_count_hurts_short(s: Seq<Effect>)
    requires
        s.len() <= 1,
        s.len() == 1 ==> s[0] != Effect::PlayerHurt,
    ensures
        count_hurts(s) == 0,
{
    if s.len() == 1 {
        assert(s.drop_last() =~= Seq::<Effect>::empty());
        assert(count_hurts(s.drop_last()) == 0);
        assert(s.last() == s[0]);
    }
}

proof fn lemma_play_input_no_hurts(m: GameModel, input: GameInput, roll: SpawnRoll)
    ensures
        count_hurts(spec_play_input(m, input, roll).1) == 0,
{
    let m1 = GameModel { spawn_rate: (m.spawn_rate + 1) as i32, ..m };
    let (m2, e2) = if m1.spawn_rate > 20 {
        let (a, b) = spec_spawn(m1, roll);
        (GameModel { spawn_rate: 0, ..a }, b)
    } else {
        (m1, Seq::empty())
    };
    let m3 = spec_move(m2, input);
    let (m4, e4) = spec_charge(m3, input);
    let (m5, e5) = spec_check_dead(m4);
    lemma_count_hurts_short(e2);
    lemma_count_hurts_short(e4);
    lemma_count_hurts_short(e5);
    lemma_count_hurts_concat(e2, e4);
    lemma_count_hurts_concat(e2 + e4, e5);
}


/// Whether a dead game is restarted at the end of this frame.
pub open spec fn restarts(m: GameModel, input: GameInput, roll: SpawnRoll) -> bool {
    let active = m.state != State::Dead && m.state != State::Pause;
    let ma = if active { spec_play(m, input, roll).0 } else { m };
    spec_toggle_pause(ma, input).state == State::Dead && input.restart_released
}

/// Whether a frame went from `m0` to `m1` and reported `report`, with the
/// generator having produced `roll` (when an enemy spawned).
pub open spec fn frame_matches(
    m0: GameModel,
    m1: GameModel,
    report: FrameReport,
    input: GameInput,
    roll: SpawnRoll,
) -> bool {
    let out = spec_frame(m0, input, roll);
    &&& spawns_this_frame(m0) ==> roll_fits(m0.level, m0.count_spawn, roll)
    &&& m1 == out.model
    &&& report.active == out.active
    &&& report.effects@ == out.effects
    &&& report.bullet_trail@ == out.bullet_trail
    &&& report.enemy_trail@ == out.enemy_trail
    &&& report.change == out.change
}


/// The laws a frame from `m0` to `m1` keeps: unless the game restarts, the
/// life budget drops by exactly the number of times an enemy hurt the player,
/// the score does not go down, the level goes up by at most one and the
/// player stays at the same height; a restart gives the starting budget back.
pub open spec fn frame_keeps_laws(
    m0: GameModel,
    m1: GameModel,
    report: FrameReport,
    input: GameInput,
    roll: SpawnRoll,
) -> bool {
    if restarts(m0, input, roll) {
        life_budget(m1) == START_LIFE
    } else {
        &&& life_budget(m1) == life_budget(m0) - count_hurts(report.effects@)
        &&& m1.score >= m0.score
        &&& m0.level <= m1.level <= m0.level + 1
        &&& m1.player_position.y == m0.player_position.y
    }
}

/// The texture a bullet is drawn with: the bullet's kind (1, 2, or 3 and
/// above) in the direction it flies.
pub open spec fn spec_bullet_texture(b: Bullet) -> TextureName {
    if b.spec_returning() {
        if b.kind == 1 {
            TextureName::Bullet1Down
        } else if b.kind == 2 {
            TextureName::Bullet2Down
        } else {
            TextureName::Bullet3Down
        }
    } else if b.kind == 1 {
        TextureName::Bullet1Up
    } else if b.kind == 2 {
        TextureName::Bullet2Up
    } else {
        TextureName::Bullet3Up
    }
}

/// The animation an enemy is drawn with, by its speed: 1 pixel per frame,
/// 2 pixels per frame, or any other speed.
pub open spec fn spec_enemy_animation(e: Enemy) -> AnimationName {
    if e.velocity.y == 1 {
        AnimationName::Enemy1
    } else if e.velocity.y == 2 {
        AnimationName::Enemy2
    } else {
        AnimationName::Enemy3
    }
}

/// The texture a bullet is drawn with (see `spec_bullet_texture`).
pub fn bullet_texture(bullet: &Bullet) -> (t: TextureName)
    ensures
        t == spec_bullet_texture(*bullet),
{
    if bullet.is_returning() {
        if bullet.get_kind() == 1 {
            TextureName::Bullet1Down
        } else if bullet.get_kind() == 2 {
            TextureName::Bullet2Down
        } else {
            TextureName::Bullet3Down
        }
    } else if bullet.get_kind() == 1 {
        TextureName::Bullet1Up
    } else if bullet.get_kind() == 2 {
        TextureName::Bullet2Up
    } else {
        TextureName::Bullet3Up
    }
}

/// The animation an enemy is drawn with (see `spec_enemy_animation`).
pub fn enemy_animation(enemy: &Enemy) -> (a: AnimationName)
    ensures
        a == spec_enemy_animation(*enemy),
{
    if enemy.get_velocity().y == 1 {
        AnimationName::Enemy1
    } else if enemy.get_velocity().y == 2 {
        AnimationName::Enemy2
    } else {
        AnimationName::Enemy3
    }
}


// ---------------------------------------------------------------------------
// Laws of the game

/// Between frames the player never holds more than the starting life, and
/// never more force than that either.
pub proof fn law_life_never_exceeds_start(m: GameModel)
    requires
        game_inv(m),
    ensures
        m.life <= START_LIFE,
        m.force <= START_LIFE,
        m.life + m.force <= START_LIFE,
{
    assert forall|i: int| 0 <= i < m.bullets.len() implies carried_force(#[trigger] m.bullets[i]) >= 0 by {
        assert(bullet_ok(m.bullets[i]));
    }
    lemma_force_in_flight_nonneg(m.bullets);
}

/// A paused game stands still until the pause button is released again;
/// then it resumes with nothing else changed.
pub proof fn law_pause_freezes(m: GameModel, input: GameInput, roll: SpawnRoll)
    requires
        m.state == State::Pause,
    ensures
        !spec_frame(m, input, roll).active,
        spec_frame(m, input, roll).effects.len() == 0,
        !input.pause_released ==> spec_frame(m, input, roll).model == m,
        input.pause_released ==> spec_frame(m, input, roll).model == (GameModel {
            state: State::Normal,
            ..m
        }),
{
}

/// A dead game stands still until it is restarted; a restart is the
/// reset game.
pub proof fn law_dead_waits_for_restart(m: GameModel, input: GameInput, roll: SpawnRoll)
    requires
        m.state == State::Dead,
    ensures
        !spec_frame(m, input, roll).active,
        spec_frame(m, input, roll).effects.len() == 0,
        !input.restart_released ==> spec_frame(m, input, roll).model == m,
        input.restart_released ==> spec_frame(m, input, roll).model == spec_reset(m),
{
}

/// A restarted game is a new game, except that the player stands at height
/// 384 instead of 404 and that the charge tick, the spawn counter and the
/// input timeout carry over.
pub proof fn law_reset_is_new_game(m: GameModel)
    requires
        game_inv(m),
    ensures
        spec_reset(m) == (GameModel {
            player_position: Vec2 { x: 120i32, y: 384i32 },
            tick: m.tick,
            spawn_rate: m.spawn_rate,
            input_timeout: m.input_timeout,
            ..spec_new_game()
        }),
        game_inv(spec_reset(m)),
{
    assert(force_in_flight(Seq::<Bullet>::empty()) == 0);
}

// ---------------------------------------------------------------------------
// Laws of the single steps

/// The back button leaves the scene in every phase of the game (playing,
/// charging, paused or dead), and a frame without it stays on the scene.
pub proof fn law_back_leaves_in_every_state(m: GameModel, input: GameInput, roll: SpawnRoll)
    ensures
        input.back_released ==> spec_frame(m, input, roll).change == SceneChange::Back,
        !input.back_released ==> spec_frame(m, input, roll).change == SceneChange::Stay,
{
}

/// A hit of an unbroken bullet of force `f` on an enemy at height `y` raises
/// the score by exactly `50 + ((480 - y) / 5) * f'`, where `f'` is `f` limited
/// to `1..=4`, and announces the new score after the effects so far.
pub proof fn law_hit_score(st: (GameModel, Seq<Effect>), i: int, r: (i32, i32, i32, i32), j: int)
    requires
        0 <= i < st.0.enemies.len(),
        0 <= j < st.0.bullets.len(),
        !st.0.bullets[j].broken,
        overlaps(r, st.0.bullets[j]),
    ensures
        ({
            let y = st.0.enemies[i].position.y;
            let f = st.0.bullets[j].force;
            let f1: int = if f < 1 { 1 } else if f > 4 { 4 } else { f as int };
            let score = (st.0.score + 50 + ((480 - y) / 5) * f1) as i32;
            &&& clash_bullet(st, i, r, j).0.score == score
            &&& clash_bullet(st, i, r, j).1 == st.1.push(Effect::EnemyHit { score })
        }),
{
}

/// At the same height, a bullet of force 3 scores more than a bullet of
/// force 1 (as long as the enemy is high enough for a bonus and the score
/// fits in `i32`).
pub proof fn law_stronger_hit_scores_more(
    st: (GameModel, Seq<Effect>),
    i: int,
    r: (i32, i32, i32, i32),
    j: int,
)
    requires
        0 <= i < st.0.enemies.len(),
        0 <= j < st.0.bullets.len(),
        !st.0.bullets[j].broken,
        overlaps(r, st.0.bullets[j]),
        st.0.bullets[j].force == 1,
        0 <= st.0.score,
        st.0.enemies[i].position.y <= 475,
        st.0.score + 50 + ((480 - st.0.enemies[i].position.y) / 5) * 3 <= i32::MAX,
    ensures
        ({
            let strong = (
                GameModel {
                    bullets: st.0.bullets.update(j, Bullet { force: 3, ..st.0.bullets[j] }),
                    ..st.0
                },
                st.1,
            );
            clash_bullet(strong, i, r, j).0.score > clash_bullet(st, i, r, j).0.score
        }),
{
    let y = st.0.enemies[i].position.y;
    assert((480 - y) / 5 >= 1);
    assert(((480 - y) / 5) * 3 > ((480 - y) / 5) * 1) by (nonlinear_arith)
        requires
            (480 - y) / 5 >= 1,
    ;
}

/// The collision step with one living enemy and one unbroken bullet that
/// overlaps it: the score rises by `50 + ((480 - y) / 5) * f'` (the force
/// `f` of the bullet limited to `1..=4`, `y` the enemy's height), and that
/// hit is the step's only effect.
pub proof fn law_single_hit_scores(m: GameModel)
    requires
        m.enemies.len() == 1,
        m.bullets.len() == 1,
        !m.enemies[0].dead,
        !m.bullets[0].broken,
        overlaps(enemy_box(m.enemies[0]), m.bullets[0]),
    ensures
        ({
            let y = m.enemies[0].position.y;
            let f = m.bullets[0].force;
            let f1: int = if f < 1 { 1 } else if f > 4 { 4 } else { f as int };
            let score = (m.score + 50 + ((480 - y) / 5) * f1) as i32;
            &&& spec_collide(m).0.score == score
            &&& spec_collide(m).1 == seq![Effect::EnemyHit { score }]
        }),
{
    let st0: (GameModel, Seq<Effect>) = (m, Seq::empty());
    assert(clash_enemies(st0, 0) == st0);
    assert(clash_bullets(st0, 0, enemy_box(m.enemies[0]), 0) == st0);
    law_hit_score(st0, 0, enemy_box(m.enemies[0]), 0);
    assert(Seq::<Effect>::empty().push(Effect::EnemyHit { score: spec_collide(m).0.score })
        =~= seq![Effect::EnemyHit { score: spec_collide(m).0.score }]);
}

/// A spawn on a field with room for one more enemy adds exactly one enemy
/// after the others: at height -20 in the rolled column, alive, 19 by 17,
/// walking straight down at `1 + speed` pixels a frame, and with two lives
/// when the extra speed is 2 and one life otherwise. On a full field no enemy
/// is added.
pub proof fn law_spawn_adds_one_enemy(m: GameModel, roll: SpawnRoll)
    requires
        roll_fits(m.level, m.count_spawn, roll),
    ensures
        m.enemies.len() < max_enemies(m.level) ==> ({
            let s = spec_spawn(m, roll).0.enemies;
            let e = s.last();
            &&& s.len() == m.enemies.len() + 1
            &&& s.drop_last() == m.enemies
            &&& e.position == (Vec2 { x: spawn_columns(m.level)[roll.column as int], y: -20i32 })
            &&& e.velocity == (Vec2 { x: 0i32, y: (1 + roll.speed) as i32 })
            &&& e.area == (19i32, 17i32)
            &&& !e.dead
            &&& e.life == (if roll.speed == 2 { 2i32 } else { 1i32 })
        }),
        m.enemies.len() >= max_enemies(m.level) ==> spec_spawn(m, roll).0.enemies == m.enemies,
{
    let s = spec_spawn(m, roll).0.enemies;
    if m.enemies.len() < max_enemies(m.level) {
        assert(s.drop_last() =~= m.enemies);
    }
}

/// Releasing the fire button with a charge `f` fires one bullet after the
/// others that carries the whole charge: it starts 10 pixels below the player,
/// unbroken, its kind is `f` limited to `1..=4`, and it flies straight up at
/// 3, 5, 8 or 10 pixels a frame for kind 1, 2, 3 or 4; the shot is announced
/// with its kind, and the charge starts over.
pub proof fn law_release_fires_the_charge(m: GameModel, input: GameInput)
    requires
        !(input.fire_down && m.life > 0),
        input.fire_released,
        m.force > 0,
    ensures
        ({
            let (m2, ef) = spec_charge(m, input);
            let f = m.force;
            let kind: i32 = if f < 1 { 1 } else if f > 4 { 4 } else { f };
            let b = m2.bullets.last();
            &&& m2.bullets.len() == m.bullets.len() + 1
            &&& m2.bullets.drop_last() == m.bullets
            &&& b.force == f
            &&& b.kind == kind
            &&& b.velocity == (Vec2 {
                x: 0i32,
                y: if kind == 1 { -3i32 } else if kind == 2 { -5i32 } else if kind == 3 { -8i32 } else { -10i32 },
            })
            &&& f == 3 ==> b.velocity == (Vec2 { x: 0i32, y: -8i32 })
            &&& f >= 4 ==> b.velocity == (Vec2 { x: 0i32, y: -10i32 })
            &&& b.position == (Vec2 { x: m.player_position.x, y: (m.player_position.y + 10) as i32 })
            &&& !b.broken
            &&& ef == seq![Effect::Shot { kind }]
            &&& m2.state == State::Normal
            &&& m2.force == 0
            &&& m2.tick == 0
            &&& m2.life == m.life
        }),
{
    let m2 = spec_charge(m, input).0;
    assert(m2.bullets.drop_last() =~= m.bullets);
}

/// Whatever the buttons, the player stays at its height and, starting in the
/// lanes `40..=200`, stays in them.
pub proof fn law_move_stays_in_lanes(m: GameModel, input: GameInput)
    ensures
        spec_move(m, input).player_position.y == m.player_position.y,
        40 <= m.player_position.x <= 200 ==> 40 <= spec_move(m, input).player_position.x <= 200,
{
}

/// A fresh press moves at once and restarts the hold timeout: right moves one
/// lane right (from `x <= 180`), otherwise up jumps to lane 200, otherwise
/// down jumps to lane 40, otherwise left moves one lane left (from `x >= 60`).
pub proof fn law_fresh_press_moves_at_once(m: GameModel, input: GameInput)
    ensures
        ({
            let x = m.player_position.x;
            let n = spec_move(m, input);
            &&& input.right_pressed && x <= 180 ==> n.player_position.x == x + 20 && n.input_timeout == 8
            &&& !(input.right_pressed && x <= 180) && input.up_pressed ==> n.player_position.x == 200
                && n.input_timeout == 8
            &&& !(input.right_pressed && x <= 180) && !input.up_pressed && input.down_pressed
                ==> n.player_position.x == 40 && n.input_timeout == 8
            &&& !(input.right_pressed && x <= 180) && !input.up_pressed && !input.down_pressed
                && input.left_pressed && x >= 60 ==> n.player_position.x == x - 20 && n.input_timeout == 8
        }),
{
}

/// Holding only left (no fresh press, right not held) never moves the player
/// right: once the hold timeout runs out the player moves one lane left if
/// `x >= 60` and the timeout starts over at 8; otherwise it stays.
pub proof fn law_holding_left_moves_left(m: GameModel, input: GameInput)
    requires
        !input.right_pressed,
        !input.left_pressed,
        !input.up_pressed,
        !input.down_pressed,
        !input.right_down,
        input.left_down,
    ensures
        ({
            let x = m.player_position.x;
            let n = spec_move(m, input);
            &&& n.player_position.x <= x
            &&& n.player_position.x == (if m.input_timeout <= 1 && x >= 60 { x - 20 } else { x as int })
            &&& n.input_timeout == (if m.input_timeout <= 1 { 8 } else { m.input_timeout - 1 })
            &&& n.player_position.y == m.player_position.y
        }),
{
}

/// Holding right (no fresh press) never moves the player left: once the hold
/// timeout runs out the player moves one lane right if `x <= 180` and the
/// timeout starts over at 8; otherwise it stays.
pub proof fn law_holding_right_moves_right(m: GameModel, input: GameInput)
    requires
        !input.right_pressed,
        !input.left_pressed,
        !input.up_pressed,
        !input.down_pressed,
        input.right_down,
    ensures
        ({
            let x = m.player_position.x;
            let n = spec_move(m, input);
            &&& n.player_position.x >= x
            &&& n.player_position.x == (if m.input_timeout <= 1 && x <= 180 { x + 20 } else { x as int })
            &&& n.input_timeout == (if m.input_timeout <= 1 { 8 } else { m.input_timeout - 1 })
            &&& n.player_position.y == m.player_position.y
        }),
{
}

fn max_enemies_exec(level: i32) -> (n: i32)
    ensures
        n == max_enemies(level),
{
    if level == 5 {
        4
    } else if level == 7 {
        5
    } else if level == 8 {
        6
    } else {
        level
    }
}

/// The seed of the generator that places enemies, so that every game
/// starts with the same enemies.
pub const SPAWN_SEED_BYTE: u8 = 12;

/// What the application gets back from a frame of the game scene.
pub struct FrameReport {
    /// Whether the game was running (neither dead nor paused) this frame;
    /// the trail particles move only then.
    pub active: bool,
    /// The effects to play, in order.
    pub effects: Vec<Effect>,
    /// Where the bullets are after moving (a trail particle each).
    pub bullet_trail: Vec<Vec2>,
    /// Where the enemies are after moving (a trail particle each).
    pub enemy_trail: Vec<Vec2>,
    /// Whether to stay on the scene.
    pub change: SceneChange,
}

/// The logic of a running game: the player, the bullets, the enemies, the
/// counters of the level and the generator that places new enemies.
pub struct GameScene {
    state: State,
    tick: i32,
    tick_max: i32,
    life: i32,
    level: i32,
    force: i32,
    score: i32,
    count_spawn: i32,
    spawn_rate: i32,
    player_position: Vec2,
    bullets: Vec<Bullet>,
    enemies: Vec<Enemy>,
    spawn_rnd: StdRng,
    input_timeout: i32,
}

/// The seed of the spawn generator: 32 bytes of `SPAWN_SEED_BYTE`.
pub open spec fn spawn_seed() -> Seq<u8> {
    Seq::new(32, |i: int| SPAWN_SEED_BYTE)
}

/// The spawn generator as every game starts it: `rand`'s generator started
/// from `spawn_seed`.
fn spawn_generator() -> (g: StdRng)
    ensures
        g == seeded_rng(spawn_seed()),
{
    let seed: [u8; 32] = [SPAWN_SEED_BYTE; 32];
    assert(seed@ =~= spawn_seed());
    rng_from_seed(seed)
}

impl GameScene {
    /// The generator that places new enemies.
    pub closed spec fn generator(&self) -> StdRng {
        self.spawn_rnd
    }

    /// The abstract state of the scene (everything but the generator).
    pub closed spec fn model(&self) -> GameModel {
        GameModel {
            state: self.state,
            tick: self.tick,
            tick_max: self.tick_max,
            life: self.life,
            level: self.level,
            force: self.force,
            score: self.score,
            count_spawn: self.count_spawn,
            spawn_rate: self.spawn_rate,
            player_position: self.player_position,
            bullets: self.bullets@,
            enemies: self.enemies@,
            input_timeout: self.input_timeout,
        }
    }

    /// Draws the values for the next spawn, in the order and from the ranges
    /// the level prescribes: first the extra speed when the level draws one,
    /// then the column.
    fn draw_spawn_roll(&mut self) -> (roll: SpawnRoll)
        requires
            old(self).count_spawn >= 0,
        ensures
            final(self).model() == old(self).model(),
            roll_fits(old(self).level, old(self).count_spawn, roll),
    {
        let level = self.level;
        let count = self.count_spawn;
        let mut speed: i32 = 0;
        if level <= 2 {
        } else if level <= 4 {
            speed = gen_range_i32(&mut self.spawn_rnd, 0, 2);
        } else if level == 5 {
        } else if level == 6 {
            if count % 5 == 0 {
                speed = gen_range_i32(&mut self.spawn_rnd, 1, 3);
            }
        } else if level == 7 {
            speed = gen_range_i32(&mut self.spawn_rnd, 0, 2);
        } else if level == 8 {
        } else {
            if count % 10 == 0 {
                speed = gen_range_i32(&mut self.spawn_rnd, 1, 3);
            } else if count % 4 == 0 {
                speed = gen_range_i32(&mut self.spawn_rnd, 0, 2);
            }
        }
        let positions = spawn_columns_exec(level);
        let column = gen_range_usize(&mut self.spawn_rnd, 0, positions.len());
        SpawnRoll { speed, column }
    }


    /// The player's movement in one frame (see `spec_move`).
    fn move_player(&mut self, input: &GameInput)
        requires
            old(self).input_timeout > i32::MIN,
        ensures
            final(self).generator() == old(self).generator(),
            final(self).model() == spec_move(old(self).model(), *input),
    {
        if input.right_pressed && self.player_position.x <= 180 {
            self.input_timeout = TIMEOUT_MAX;
            self.player_position.x += 20;
        } else if input.up_pressed {
            self.input_timeout = TIMEOUT_MAX;
            self.player_position.x = 200;
        } else if input.down_pressed {
            self.input_timeout = TIMEOUT_MAX;
            self.player_position.x = 40;
        } else if input.left_pressed && self.player_position.x >= 60 {
            self.input_timeout = TIMEOUT_MAX;
            self.player_position.x -= 20;
        } else if input.right_down {
            self.input_timeout -= 1;
            if self.input_timeout <= 0 {
                self.input_timeout = TIMEOUT_MAX;
                if self.player_position.x <= 180 {
                    self.player_position.x += 20;
                }
            }
        } else if input.left_down {
            self.input_timeout -= 1;
            if self.input_timeout <= 0 {
                self.input_timeout = TIMEOUT_MAX;
                if self.player_position.x >= 60 {
                    self.player_position.x -= 20;
                }
            }
        }
    }

    /// Fires a bullet with `force` from `spawn_position` (see `spec_shoot`).
    fn shoot(&mut self, force: i32, spawn_position: Vec2, effects: &mut Vec<Effect>)
        requires
            spawn_position.y + 10 <= i32::MAX,
        ensures
            final(self).generator() == old(self).generator(),
            final(self).model() == spec_shoot(old(self).model(), force, spawn_position).0,
            final(effects)@ == old(effects)@ + spec_shoot(old(self).model(), force, spawn_position).1,
            final(self).bullets@.len() == old(self).bullets@.len() + 1,
            final(self).bullets@.last().force == force,
            final(self).bullets@.last().kind == (if force < 1 { 1i32 } else if force > 4 { 4i32 } else { force }),
            final(self).bullets@.last().velocity == (Vec2 {
                x: 0i32,
                y: if force <= 1 { -3i32 } else if force == 2 { -5i32 } else if force == 3 { -8i32 } else { -10i32 },
            }),
            final(effects)@ == old(effects)@.push(
                Effect::Shot { kind: if force < 1 { 1i32 } else if force > 4 { 4i32 } else { force } },
            ),
    {
        let kind = clamp_i32(force, 1, 4);
        let mut b = Bullet::new(spawn_position.add(Vec2::new(0, 10)), force, kind);
        b.set_velocity(bullet::get_velocity_from_force(kind));
        self.bullets.push(b);
        effects.push(Effect::Shot { kind });
        proof {
            let sp = spec_shoot(old(self).model(), force, spawn_position);
            assert(self.bullets@ =~= sp.0.bullets);
            assert(effects@ =~= old(effects)@ + sp.1);
        }
    }

    /// The fire button in one frame (see `spec_charge`).
    fn charge(&mut self, input: &GameInput, effects: &mut Vec<Effect>)
        requires
            0 <= old(self).force <= START_LIFE,
            0 <= old(self).tick <= 10,
            40 <= old(self).player_position.x <= 200,
            old(self).player_position.y == 404 || old(self).player_position.y == 384,
            forall|j: int| 0 <= j < old(self).bullets@.len() ==> bullet_ok(#[trigger] old(self).bullets@[j]),
            life_budget(old(self).model()) <= START_LIFE,
        ensures
            final(self).generator() == old(self).generator(),
            final(self).model() == spec_charge(old(self).model(), *input).0,
            final(effects)@ == old(effects)@ + spec_charge(old(self).model(), *input).1,
            forall|j: int| 0 <= j < final(self).bullets@.len() ==> bullet_ok(#[trigger] final(self).bullets@[j]),
            life_budget(final(self).model()) == life_budget(old(self).model()),
            0 <= final(self).force <= START_LIFE,
            final(self).bullets@.len() <= old(self).bullets@.len() + 1,
            final(self).life >= old(self).life - 1,
            final(self).life < old(self).life ==> final(self).life >= 0,
    {
        proof {
            assert forall|j: int| 0 <= j < self.bullets@.len() implies carried_force(#[trigger] self.bullets@[j]) >= 0 by {
                assert(bullet_ok(self.bullets@[j]));
            }
            lemma_force_in_flight_nonneg(self.bullets@);
            lemma_force_in_flight_push(self.bullets@, fired_bullet(self.force, self.player_position));
        }
        if input.fire_down && self.life > 0 {
            if self.state == State::Normal {
                self.state = State::Pressed;
                self.force += 1;
                self.life -= 1;
                effects.push(Effect::ChargeStarted);
            } else if self.state == State::Pressed {
                self.tick += 1;
                if self.tick > self.tick_max {
                    self.force += 1;
                    self.life -= 1;
                    self.tick = 0;
                    effects.push(Effect::Charged { force: self.force });
                }
            }
        } else if input.fire_released && self.force > 0 {
            self.state = State::Normal;
            let force = self.force;
            let position = self.player_position;
            self.shoot(force, position, effects);
            self.force = 0;
            self.tick = 0;
        }
        proof {
            assert(effects@ =~= old(effects)@ + spec_charge(old(self).model(), *input).1);
        }
    }

    /// Marks the player dead when its life is negative (see `spec_check_dead`).
    fn check_dead(&mut self, effects: &mut Vec<Effect>)
        ensures
            final(self).generator() == old(self).generator(),
            final(self).model() == spec_check_dead(old(self).model()).0,
            final(effects)@ == old(effects)@ + spec_check_dead(old(self).model()).1,
    {
        if self.life < 0 {
            self.state = State::Dead;
            effects.push(Effect::PlayerDied { score: self.score });
        }
        proof {
            assert(effects@ =~= old(effects)@ + spec_check_dead(old(self).model()).1);
        }
    }

    /// Drops the broken bullets and moves the others one frame; returns their
    /// new positions (see `advanced_bullets`).
    fn advance_bullets(&mut self) -> (trail: Vec<Vec2>)
        requires
            forall|i: int| 0 <= i < old(self).bullets@.len() ==> bullet_ok(#[trigger] old(self).bullets@[i]),
        ensures
            final(self).generator() == old(self).generator(),
            final(self).model() == (GameModel {
                bullets: advanced_bullets(old(self).model().bullets),
                ..old(self).model()
            }),
            trail@ == bullet_positions(advanced_bullets(old(self).model().bullets)),
            forall|i: int| 0 <= i < final(self).bullets@.len() ==> bullet_in_field(#[trigger] final(self).bullets@[i]),
            final(self).bullets@.len() <= old(self).bullets@.len(),
            force_in_flight(final(self).bullets@) == force_in_flight(old(self).bullets@),
    {
        let ghost s = self.bullets@;
        let mut kept: Vec<Bullet> = Vec::new();
        let mut trail: Vec<Vec2> = Vec::new();
        let n = self.bullets.len();
        for i in 0..n
            invariant
                self.spawn_rnd == old(self).spawn_rnd,
                n == s.len(),
                self.bullets@ == s,
                forall|k: int| 0 <= k < s.len() ==> bullet_ok(#[trigger] s[k]),
                kept@ == advanced_bullets(s.take(i as int)),
                trail@ == bullet_positions(kept@),
                forall|k: int| 0 <= k < kept@.len() ==> bullet_in_field(#[trigger] kept@[k]),
                kept@.len() <= i,
                force_in_flight(kept@) == force_in_flight(s.take(i as int)),
        {
            let mut b = self.bullets[i];
            assert(s.take(i + 1).drop_last() =~= s.take(i as int));
            assert(bullet_ok(s[i as int]));
            if !b.broken {
                proof {
                    lemma_bullet_step_in_field(b);
                    lemma_force_in_flight_push(kept@, b.spec_step());
                }
                b.update();
                kept.push(b);
                trail.push(b.position);
            }
            proof {
                let t = s.take(i + 1);
                assert(t.last() == s[i as int]);
                assert(kept@ =~= advanced_bullets(t));
                assert(trail@ =~= bullet_positions(kept@));
            }
        }
        assert(s.take(n as int) =~= s);
        self.bullets = kept;
        trail
    }

    /// Drops the dead enemies and moves the others one frame; returns their
    /// new positions (see `advanced_enemies`).
    fn advance_enemies(&mut self) -> (trail: Vec<Vec2>)
        requires
            forall|i: int| 0 <= i < old(self).enemies@.len() ==> enemy_ok(#[trigger] old(self).enemies@[i]),
        ensures
            final(self).generator() == old(self).generator(),
            final(self).model() == (GameModel {
                enemies: advanced_enemies(old(self).model().enemies),
                ..old(self).model()
            }),
            trail@ == enemy_positions(advanced_enemies(old(self).model().enemies)),
            forall|i: int| 0 <= i < final(self).enemies@.len() ==> enemy_in_field(#[trigger] final(self).enemies@[i]),
            final(self).enemies@.len() <= old(self).enemies@.len(),
    {
        let ghost s = self.enemies@;
        let mut kept: Vec<Enemy> = Vec::new();
        let mut trail: Vec<Vec2> = Vec::new();
        let n = self.enemies.len();
        for i in 0..n
            invariant
                self.spawn_rnd == old(self).spawn_rnd,
                n == s.len(),
                self.enemies@ == s,
                forall|k: int| 0 <= k < s.len() ==> enemy_ok(#[trigger] s[k]),
                kept@ == advanced_enemies(s.take(i as int)),
                trail@ == enemy_positions(kept@),
                forall|k: int| 0 <= k < kept@.len() ==> enemy_in_field(#[trigger] kept@[k]),
                kept@.len() <= i,
        {
            let mut e = self.enemies[i];
            assert(s.take(i + 1).drop_last() =~= s.take(i as int));
            assert(enemy_ok(s[i as int]));
            if !e.dead {
                proof {
                    lemma_enemy_step_in_field(e);
                }
                e.update();
                kept.push(e);
                trail.push(e.position);
            }
            proof {
                let t = s.take(i + 1);
                assert(t.last() == s[i as int]);
                assert(kept@ =~= advanced_enemies(t));
                assert(trail@ =~= enemy_positions(kept@));
            }
        }
        assert(s.take(n as int) =~= s);
        self.enemies = kept;
        trail
    }


    /// All hits of bullets on enemies in one frame (see `spec_collide`).
    fn check_collision(&mut self, effects: &mut Vec<Effect>)
        requires
            forall|i: int| 0 <= i < old(self).enemies@.len() ==> enemy_in_field(#[trigger] old(self).enemies@[i]),
            forall|j: int| 0 <= j < old(self).bullets@.len() ==> bullet_in_field(#[trigger] old(self).bullets@[j]),
            0 <= old(self).score,
            old(self).score + 458 * old(self).enemies@.len() * old(self).bullets@.len() <= i32::MAX,
            old(self).life + force_in_flight(old(self).bullets@) <= i32::MAX,
        ensures
            final(self).generator() == old(self).generator(),
            final(self).model() == spec_collide(old(self).model()).0,
            same_counters(final(self).model(), old(self).model()),
            final(effects)@ == old(effects)@ + spec_collide(old(self).model()).1,
            forall|i: int| 0 <= i < final(self).enemies@.len() ==> enemy_in_field(#[trigger] final(self).enemies@[i]),
            forall|j: int| 0 <= j < final(self).bullets@.len() ==> bullet_in_field(#[trigger] final(self).bullets@[j]),
            final(self).enemies@.len() == old(self).enemies@.len(),
            final(self).bullets@.len() == old(self).bullets@.len(),
            final(self).life + force_in_flight(final(self).bullets@) == old(self).life + force_in_flight(old(self).bullets@),
            final(self).life >= old(self).life,
            final(self).score >= old(self).score,
            count_hurts(spec_collide(old(self).model()).1) == 0,
            final(self).force == old(self).force,
            final(self).life - old(self).life == enemy_lives(old(self).enemies@) - enemy_lives(
                final(self).enemies@,
            ),
            forall|j: int|
                0 <= j < final(self).bullets@.len() ==> (#[trigger] final(self).bullets@[j]).position
                    == old(self).bullets@[j].position,
            forall|j: int|
                0 <= j < final(self).bullets@.len() && (#[trigger] final(self).bullets@[j]).broken
                    ==> old(self).bullets@[j].broken || final(self).bullets@[j].force == 0,
    {
        let ghost m0 = self.model();
        let ghost budget = self.life + force_in_flight(self.bullets@);
        let ghost lives = self.life + enemy_lives(self.enemies@);
        let ghost ne = self.enemies@.len() as int;
        let ghost nb = self.bullets@.len() as int;
        let mut hits: Vec<Effect> = Vec::new();
        let mut i: usize = 0;
        while i < self.enemies.len()
            invariant
                self.spawn_rnd == old(self).spawn_rnd,
                0 <= i <= ne,
                self.enemies@.len() == ne,
                self.bullets@.len() == nb,
                (self.model(), hits@) == clash_enemies((m0, Seq::empty()), i as int),
                same_counters(self.model(), m0),
                forall|k: int| 0 <= k < ne ==> enemy_in_field(#[trigger] self.enemies@[k]),
                forall|k: int| 0 <= k < nb ==> bullet_in_field(#[trigger] self.bullets@[k]),
                0 <= self.score <= m0.score + 458 * nb * i,
                m0.score <= self.score,
                m0.life <= self.life,
                count_hurts(hits@) == 0,
                self.force == m0.force,
                m0.score + 458 * ne * nb <= i32::MAX,
                self.life + enemy_lives(self.enemies@) == lives,
                forall|q: int| 0 <= q < nb ==> (#[trigger] self.bullets@[q]).position == m0.bullets[q].position,
                forall|q: int|
                    0 <= q < nb && (#[trigger] self.bullets@[q]).broken ==> m0.bullets[q].broken
                        || self.bullets@[q].force == 0,
                self.life + force_in_flight(self.bullets@) == budget,
                budget <= i32::MAX,
            decreases ne - i,
        {
            let ghost st_i = (self.model(), hits@);
            let enemy0 = self.enemies[i];
            if !enemy0.dead {
                let x = enemy0.position.x;
                let y = enemy0.position.y;
                let w = enemy0.area.0;
                let h = enemy0.area.1;
                let ghost r = (x, y, w, h);
                assert(r == enemy_box(st_i.0.enemies[i as int]));
                let mut j: usize = 0;
                while j < self.bullets.len()
                    invariant
                        self.spawn_rnd == old(self).spawn_rnd,
                        0 <= i < ne,
                        0 <= j <= nb,
                        self.enemies@.len() == ne,
                        self.bullets@.len() == nb,
                        st_i.0.bullets.len() == nb,
                        (self.model(), hits@) == clash_bullets(st_i, i as int, r, j as int),
                        same_counters(self.model(), m0),
                        r == (x, y, w, h),
                        w == 19 && h == 17 && 40 <= x <= 200 && -30 <= y <= 414,
                        forall|k: int| 0 <= k < ne ==> enemy_in_field(#[trigger] self.enemies@[k]),
                        forall|k: int| 0 <= k < nb ==> bullet_in_field(#[trigger] self.bullets@[k]),
                        0 <= self.score <= m0.score + 458 * nb * i + 458 * j,
                        m0.score <= self.score,
                        m0.life <= self.life,
                        count_hurts(hits@) == 0,
                        self.force == m0.force,
                        m0.score + 458 * ne * nb <= i32::MAX,
                        self.life + enemy_lives(self.enemies@) == lives,
                        forall|q: int| 0 <= q < nb ==> (#[trigger] self.bullets@[q]).position == m0.bullets[q].position,
                        forall|q: int|
                            0 <= q < nb && (#[trigger] self.bullets@[q]).broken ==> m0.bullets[q].broken
                                || self.bullets@[q].force == 0,
                        self.life + force_in_flight(self.bullets@) == budget,
                        budget <= i32::MAX,
                    decreases nb - j,
                {
                    let ghost st_j = (self.model(), hits@);
                    let mut bullet = self.bullets[j];
                    let mut enemy = self.enemies[i];
                    assert(bullet_in_field(self.bullets@[j as int]));
                    assert(enemy_in_field(self.enemies@[i as int]));
                    if !bullet.broken {
                        let bx = bullet.position.x;
                        let by = bullet.position.y;
                        let bw = bullet.area.0;
                        let bh = bullet.area.1;
                        let sized = w > 0 && h > 0 && bw > 0 && bh > 0;
                        let hit = sized && x < bx + bw && x + w > bx && y < by + bh && y + h > by;
                        if hit {
                            let points: i32 = 50;
                            let q = (480 - enemy.position.y) / 5;
                            let c = clamp_i32(bullet.force, 1, 4);
                            assert(0 <= q <= 102);
                            assert(0 <= q * c <= 408) by (nonlinear_arith)
                                requires
                                    0 <= q <= 102,
                                    1 <= c <= 4,
                            ;
                            let bonus = q * c;
                            proof {
                                assert(458 * nb * i + 458 * j + 458 <= 458 * ne * nb) by (nonlinear_arith)
                                    requires
                                        0 <= i < ne,
                                        0 <= j < nb,
                                ;
                            }
                            self.score += points + bonus;
                            proof {
                                lemma_count_hurts_push(hits@, Effect::EnemyHit { score: self.score });
                            }
                            hits.push(Effect::EnemyHit { score: self.score });
                            let f = bullet.force;
                            let ghost e0 = enemy;
                            let ghost b0 = bullet;
                            let ghost l0 = self.life as int;
                            proof {
                                lemma_force_in_flight_update(self.bullets@, j as int, b0);
                                let others = self.bullets@.update(j as int, Bullet { broken: true, ..b0 });
                                lemma_force_in_flight_update(self.bullets@, j as int, Bullet { broken: true, ..b0 });
                                assert forall|k: int| 0 <= k < others.len() implies carried_force(#[trigger] others[k]) >= 0 by {
                                    if k != j {
                                        assert(bullet_in_field(self.bullets@[k]));
                                    }
                                }
                                lemma_force_in_flight_nonneg(others);
                            }
                            let mut life = self.life;
                            let mut k: i32 = 0;
                            #[verifier::loop_isolation(false)]
                            while k < f
                                invariant
                                    self.spawn_rnd == old(self).spawn_rnd,
                                    1 <= f,
                                    f == b0.force,
                                    !b0.broken,
                                    0 <= k <= f,
                                    (enemy, bullet, life as int) == strikes(e0, b0, l0, k as nat),
                                    enemy_in_field(enemy),
                                    bullet_in_field(bullet),
                                    bullet.position == b0.position,
                                    bullet.velocity == b0.velocity,
                                    bullet.area == b0.area,
                                    bullet.force == f - (life - l0),
                                    life - l0 == e0.life - enemy.life,
                                    0 <= life - l0 <= k,
                                    bullet.broken <==> bullet.force == 0,
                                    l0 + f <= budget,
                                    budget <= i32::MAX,
                                decreases f - k,
                            {
                                if enemy.life > 0 {
                                    enemy.hurt();
                                    bullet.consume_force();
                                    life += 1;
                                }
                                k += 1;
                            }
                            self.life = life;
                            proof {
                                lemma_force_in_flight_update(self.bullets@, j as int, bullet);
                                lemma_enemy_lives_update(self.enemies@, i as int, enemy);
                            }
                            self.enemies.set(i, enemy);
                            self.bullets.set(j, bullet);
                            proof {
                                assert(self.model() == clash_bullet(st_j, i as int, r, j as int).0);
                                assert(hits@ == clash_bullet(st_j, i as int, r, j as int).1);
                            }
                        }
                    }
                    j += 1;
                }
            }
            i += 1;
            proof {
                assert(self.score <= m0.score + 458 * nb * i) by (nonlinear_arith)
                    requires
                        self.score <= m0.score + 458 * nb * (i - 1) + 458 * nb,
                ;
            }
        }
        effects.append(&mut hits);
    }


    /// Enemies at the bottom line hurt the player (see `spec_hurt_check`).
    fn check_player_get_hurt(&mut self, effects: &mut Vec<Effect>)
        requires
            forall|i: int| 0 <= i < old(self).enemies@.len() ==> enemy_in_field(#[trigger] old(self).enemies@[i]),
            old(self).life - old(self).enemies@.len() >= i32::MIN,
        ensures
            final(self).generator() == old(self).generator(),
            final(self).model() == spec_hurt_check(old(self).model()).0,
            same_counters(final(self).model(), old(self).model()),
            final(effects)@ == old(effects)@ + spec_hurt_check(old(self).model()).1,
            forall|i: int| 0 <= i < final(self).enemies@.len() ==> enemy_ok(#[trigger] final(self).enemies@[i]),
            final(self).enemies@.len() == old(self).enemies@.len(),
            final(self).life == old(self).life - count_hurts(spec_hurt_check(old(self).model()).1),
            final(self).bullets@ == old(self).bullets@,
            final(self).force == old(self).force,
            final(self).score == old(self).score,
            final(self).life <= old(self).life,
    {
        let ghost m0 = self.model();
        let ghost ne = self.enemies@.len() as int;
        let mut hurts: Vec<Effect> = Vec::new();
        let mut i: usize = 0;
        while i < self.enemies.len()
            invariant
                self.spawn_rnd == old(self).spawn_rnd,
                0 <= i <= ne,
                self.enemies@.len() == ne,
                (self.model(), hurts@) == hurt_by_enemies((m0, Seq::empty()), i as int),
                same_counters(self.model(), m0),
                forall|k: int| 0 <= k < ne ==> enemy_in_field(#[trigger] self.enemies@[k]),
                forall|k: int| 0 <= k < i ==> enemy_ok(#[trigger] self.enemies@[k]),
                self.life >= m0.life - i,
                self.life == m0.life - count_hurts(hurts@),
                self.life <= m0.life,
                self.bullets@ == m0.bullets,
                self.force == m0.force,
                self.score == m0.score,
                m0.life - ne >= i32::MIN,
            decreases ne - i,
        {
            let mut enemy = self.enemies[i];
            assert(enemy_in_field(self.enemies@[i as int]));
            proof {
                lemma_count_hurts_push(hurts@, Effect::PlayerHurt);
            }
            if enemy.position.y >= MAX_BOTTOM && !enemy.dead {
                self.life -= 1;
                enemy.hurt();
                self.enemies.set(i, enemy);
                hurts.push(Effect::PlayerHurt);
            }
            i += 1;
        }
        effects.append(&mut hurts);
    }

    /// Unbroken bullets falling back at the bottom line are caught (see
    /// `spec_pickup`).
    fn check_player_get_life(&mut self, effects: &mut Vec<Effect>)
        requires
            forall|j: int| 0 <= j < old(self).bullets@.len() ==> bullet_in_field(#[trigger] old(self).bullets@[j]),
            old(self).life + force_in_flight(old(self).bullets@) <= i32::MAX,
        ensures
            final(self).generator() == old(self).generator(),
            final(self).model() == spec_pickup(old(self).model()).0,
            same_counters(final(self).model(), old(self).model()),
            final(effects)@ == old(effects)@ + spec_pickup(old(self).model()).1,
            forall|j: int| 0 <= j < final(self).bullets@.len() ==> bullet_ok(#[trigger] final(self).bullets@[j]),
            final(self).life + force_in_flight(final(self).bullets@) == old(self).life + force_in_flight(old(self).bullets@),
            count_hurts(spec_pickup(old(self).model()).1) == 0,
            final(self).enemies@ == old(self).enemies@,
            final(self).force == old(self).force,
            final(self).score == old(self).score,
    {
        let ghost m0 = self.model();
        let ghost nb = self.bullets@.len() as int;
        let ghost budget = self.life + force_in_flight(self.bullets@);
        let mut caught: Vec<Effect> = Vec::new();
        let mut j: usize = 0;
        while j < self.bullets.len()
            invariant
                self.spawn_rnd == old(self).spawn_rnd,
                0 <= j <= nb,
                self.bullets@.len() == nb,
                (self.model(), caught@) == catch_bullets((m0, Seq::empty()), j as int),
                same_counters(self.model(), m0),
                forall|k: int| 0 <= k < nb ==> bullet_in_field(#[trigger] self.bullets@[k]),
                forall|k: int| 0 <= k < j ==> bullet_ok(#[trigger] self.bullets@[k]),
                count_hurts(caught@) == 0,
                self.enemies@ == m0.enemies,
                self.force == m0.force,
                self.score == m0.score,
                self.life + force_in_flight(self.bullets@) == budget,
                budget <= i32::MAX,
            decreases nb - j,
        {
            let mut bullet = self.bullets[j];
            assert(bullet_in_field(self.bullets@[j as int]));
            proof {
                lemma_count_hurts_push(caught@, Effect::LifeCollected);
            }
            if bullet.position.y >= MAX_BOTTOM && !bullet.broken && bullet.is_returning() {
                let ghost b0 = bullet;
                proof {
                    let others = self.bullets@.update(j as int, Bullet { broken: true, ..b0 });
                    lemma_force_in_flight_update(self.bullets@, j as int, Bullet { broken: true, ..b0 });
                    assert forall|k: int| 0 <= k < others.len() implies carried_force(#[trigger] others[k]) >= 0 by {
                        if k != j {
                            assert(bullet_in_field(self.bullets@[k]));
                        }
                    }
                    lemma_force_in_flight_nonneg(others);
                }
                self.life += bullet.force;
                bullet.set_broken();
                self.bullets.set(j, bullet);
                caught.push(Effect::LifeCollected);
            }
            j += 1;
        }
        effects.append(&mut caught);
    }


    /// The game after `reset` (see `spec_reset`); the spawn generator starts
    /// again from its seed.
    fn reset(&mut self)
        ensures
            final(self).model() == spec_reset(old(self).model()),
            final(self).generator() == seeded_rng(spawn_seed()),
    {
        self.enemies.clear();
        self.bullets.clear();
        self.score = 0;
        self.state = State::Normal;
        self.life = START_LIFE;
        self.force = 0;
        self.level = 1;
        self.count_spawn = 0;
        self.player_position = Vec2::new((WINDOW_WIDTH / 2) as i32, (WINDOW_HEIGHT - 76) as i32);
        self.spawn_rnd = spawn_generator();
        assert(self.enemies@ =~= Seq::<Enemy>::empty());
        assert(self.bullets@ =~= Seq::<Bullet>::empty());
    }

    /// The spawn counter and the player's buttons (see `spec_play_input`).
    fn play_input(&mut self, input: &GameInput, roll: SpawnRoll, effects: &mut Vec<Effect>)
        requires
            game_inv(old(self).model()),
            old(self).level < i32::MAX,
            old(self).spawn_rate + 1 > 20 ==> roll_fits(old(self).level, old(self).count_spawn, roll),
        ensures
            final(self).generator() == old(self).generator(),
            final(self).model() == spec_play_input(old(self).model(), *input, roll).0,
            final(effects)@ == old(effects)@ + spec_play_input(old(self).model(), *input, roll).1,
            count_hurts(spec_play_input(old(self).model(), *input, roll).1) == 0,
            final(self).tick_max == 10,
            0 <= final(self).tick <= final(self).tick_max,
            0 <= final(self).spawn_rate <= 20,
            0 <= final(self).input_timeout <= TIMEOUT_MAX,
            final(self).level >= 1,
            0 <= final(self).count_spawn < level_length(final(self).level),
            0 <= final(self).force <= START_LIFE,
            final(self).score == old(self).score,
            final(self).level >= old(self).level,
            final(self).level <= old(self).level + 1,
            40 <= final(self).player_position.x <= 200,
            final(self).player_position.x % 20 == 0,
            final(self).player_position.y == old(self).player_position.y,
            life_budget(final(self).model()) == life_budget(old(self).model()),
            forall|j: int| 0 <= j < final(self).bullets@.len() ==> bullet_ok(#[trigger] final(self).bullets@[j]),
            forall|i: int| 0 <= i < final(self).enemies@.len() ==> enemy_ok(#[trigger] final(self).enemies@[i]),
            final(self).bullets@.len() <= old(self).bullets@.len() + 1,
            final(self).enemies@.len() <= old(self).enemies@.len() + 1,
            final(self).life >= old(self).life - 1,
            final(self).life < old(self).life ==> final(self).life >= 0,
    {
        let ghost m = self.model();
        let ghost e0 = effects@;
        self.spawn_rate += 1;
        if self.spawn_rate > 20 {
            proof {
                lemma_spawned_enemy_ok(self.level, self.count_spawn, roll);
            }
            self.spawn_enemy_with(roll, effects);
            self.spawn_rate = 0;
        }
        self.move_player(input);
        self.charge(input, effects);
        self.check_dead(effects);
        proof {
            let sp = spec_play_input(m, *input, roll);
            assert(effects@ =~= e0 + sp.1);
            lemma_play_input_no_hurts(m, *input, roll);
        }
    }

    /// The world's part of a frame (see `spec_play_world`).
    fn play_world(&mut self, effects: &mut Vec<Effect>) -> (trails: (Vec<Vec2>, Vec<Vec2>))
        requires
            forall|j: int| 0 <= j < old(self).bullets@.len() ==> bullet_ok(#[trigger] old(self).bullets@[j]),
            forall|i: int| 0 <= i < old(self).enemies@.len() ==> enemy_ok(#[trigger] old(self).enemies@[i]),
            0 <= old(self).score,
            old(self).score + 458 * old(self).enemies@.len() * old(self).bullets@.len() <= i32::MAX,
            old(self).life - old(self).enemies@.len() >= i32::MIN,
            life_budget(old(self).model()) <= START_LIFE,
            0 <= old(self).force,
        ensures
            final(self).generator() == old(self).generator(),
            final(self).model() == spec_play_world(old(self).model()).0,
            same_counters(final(self).model(), old(self).model()),
            final(effects)@ == old(effects)@ + spec_play_world(old(self).model()).1,
            trails.0@ == spec_play_world(old(self).model()).2,
            trails.1@ == spec_play_world(old(self).model()).3,
            forall|j: int| 0 <= j < final(self).bullets@.len() ==> bullet_ok(#[trigger] final(self).bullets@[j]),
            forall|i: int| 0 <= i < final(self).enemies@.len() ==> enemy_ok(#[trigger] final(self).enemies@[i]),
            final(self).score >= old(self).score,
            life_budget(final(self).model()) == life_budget(old(self).model()) - count_hurts(
                spec_play_world(old(self).model()).1,
            ),
    {
        let ghost m = self.model();
        let ghost e0 = effects@;
        proof {
            assert forall|j: int| 0 <= j < self.bullets@.len() implies carried_force(#[trigger] self.bullets@[j]) >= 0 by {
                assert(bullet_ok(self.bullets@[j]));
            }
            lemma_force_in_flight_nonneg(self.bullets@);
        }
        let bullet_trail = self.advance_bullets();
        let enemy_trail = self.advance_enemies();
        proof {
            let ne = self.enemies@.len();
            let nb = self.bullets@.len();
            let ne0 = m.enemies.len();
            let nb0 = m.bullets.len();
            assert(458 * ne * nb <= 458 * ne0 * nb0) by (nonlinear_arith)
                requires
                    ne <= ne0,
                    nb <= nb0,
            ;
        }
        self.check_collision(effects);
        self.check_player_get_hurt(effects);
        self.check_player_get_life(effects);
        proof {
            let sp = spec_play_world(m);
            assert(effects@ =~= e0 + sp.1);
            let m6 = GameModel {
                bullets: advanced_bullets(m.bullets),
                enemies: advanced_enemies(m.enemies),
                ..m
            };
            let (m7, a) = spec_collide(m6);
            let (m8, b) = spec_hurt_check(m7);
            let (m9, c) = spec_pickup(m8);
            assert(sp.1 =~= a + b + c);
            lemma_count_hurts_concat(a, b);
            lemma_count_hurts_concat(a + b, c);
        }
        (bullet_trail, enemy_trail)
    }

    /// One frame of a running game (see `spec_play`).
    fn play(&mut self, input: &GameInput, roll: SpawnRoll, effects: &mut Vec<Effect>) -> (trails: (
        Vec<Vec2>,
        Vec<Vec2>,
    ))
        requires
            game_inv(old(self).model()),
            frame_headroom(old(self).model()),
            old(self).spawn_rate + 1 > 20 ==> roll_fits(old(self).level, old(self).count_spawn, roll),
        ensures
            final(self).generator() == old(self).generator(),
            final(self).model() == spec_play(old(self).model(), *input, roll).0,
            final(effects)@ == old(effects)@ + spec_play(old(self).model(), *input, roll).1,
            trails.0@ == spec_play(old(self).model(), *input, roll).2,
            trails.1@ == spec_play(old(self).model(), *input, roll).3,
            game_inv(final(self).model()),
            life_budget(final(self).model()) == life_budget(old(self).model()) - count_hurts(
                spec_play(old(self).model(), *input, roll).1,
            ),
            final(self).score >= old(self).score,
            final(self).level >= old(self).level,
            final(self).level <= old(self).level + 1,
            final(self).player_position.y == old(self).player_position.y,
    {
        let ghost m = self.model();
        let ghost e0 = effects@;
        self.play_input(input, roll, effects);
        let ghost e5 = effects@;
        let ghost mid = self.model();
        proof {
            let ne = mid.enemies.len();
            let nb = mid.bullets.len();
            let ne0 = m.enemies.len();
            let nb0 = m.bullets.len();
            assert(458 * ne * nb <= 458 * (ne0 + 1) * (nb0 + 1)) by (nonlinear_arith)
                requires
                    ne <= ne0 + 1,
                    nb <= nb0 + 1,
            ;
        }
        let trails = self.play_world(effects);
        proof {
            let sp = spec_play(m, *input, roll);
            let (ma, a) = spec_play_input(m, *input, roll);
            let (mb, b, bt, et) = spec_play_world(ma);
            assert(sp.1 =~= a + b);
            assert(effects@ =~= e0 + sp.1);
            lemma_count_hurts_concat(a, b);
            lemma_count_hurts_nonneg(sp.1);
        }
        trails
    }


    /// A new game (see `spec_new_game`): the player in the middle lane at
    /// height 404 with full life, level 1, and the spawn generator started
    /// from its seed.
    pub fn new() -> (g: GameScene)
        ensures
            g.model() == spec_new_game(),
            g.generator() == seeded_rng(spawn_seed()),
            game_inv(g.model()),
    {
        let g = GameScene {
            state: State::Normal,
            tick: 0,
            tick_max: 10,
            life: START_LIFE,
            force: 0,
            score: 0,
            level: 1,
            count_spawn: 0,
            spawn_rate: 0,
            player_position: Vec2::new((WINDOW_WIDTH / 2) as i32, (WINDOW_HEIGHT - 56) as i32),
            bullets: Vec::new(),
            enemies: Vec::new(),
            spawn_rnd: spawn_generator(),
            input_timeout: 0,
        };
        assert(g.model().bullets =~= Seq::<Bullet>::empty());
        assert(g.model().enemies =~= Seq::<Enemy>::empty());
        assert(force_in_flight(g.model().bullets) == 0);
        g
    }

    /// One frame with the given values from the spawn generator (see
    /// `spec_frame`). The game invariant is kept, and the life budget (life,
    /// charge and force in flight) drops by exactly the number of times an
    /// enemy hurt the player, unless the game restarts, which gives the
    /// starting budget back and starts the spawn generator again from its
    /// seed; without a restart the generator is left as it was.
    pub fn update_with(&mut self, input: &GameInput, roll: SpawnRoll) -> (report: FrameReport)
        requires
            game_inv(old(self).model()),
            frame_headroom(old(self).model()),
            spawns_this_frame(old(self).model()) ==> roll_fits(
                old(self).model().level,
                old(self).model().count_spawn,
                roll,
            ),
        ensures
            frame_matches(old(self).model(), final(self).model(), report, *input, roll),
            game_inv(final(self).model()),
            frame_keeps_laws(old(self).model(), final(self).model(), report, *input, roll),
            restarts(old(self).model(), *input, roll) ==> final(self).generator() == seeded_rng(
                spawn_seed(),
            ),
            !restarts(old(self).model(), *input, roll) ==> final(self).generator() == old(self).generator(),
            report.change == (if input.back_released { SceneChange::Back } else { SceneChange::Stay }),
    {
        let ghost m = self.model();
        let mut effects: Vec<Effect> = Vec::new();
        let mut bullet_trail: Vec<Vec2> = Vec::new();
        let mut enemy_trail: Vec<Vec2> = Vec::new();
        let active = self.state != State::Dead && self.state != State::Pause;
        if active {
            let trails = self.play(input, roll, &mut effects);
            bullet_trail = trails.0;
            enemy_trail = trails.1;
        }
        if self.state == State::Normal && input.pause_released {
            self.state = State::Pause;
        } else if self.state == State::Pause && input.pause_released {
            self.state = State::Normal;
        }
        if self.state == State::Dead && input.restart_released {
            self.reset();
        }
        let change = if input.back_released {
            SceneChange::Back
        } else {
            SceneChange::Stay
        };
        FrameReport { active, effects, bullet_trail, enemy_trail, change }
    }

    /// One frame, drawing the spawn values from the game's generator when an
    /// enemy spawns: the frame is `spec_frame` for some values the generator
    /// can produce, and the same facts as for `update_with` hold.
    pub fn update(&mut self, input: &GameInput) -> (report: FrameReport)
        requires
            game_inv(old(self).model()),
            frame_headroom(old(self).model()),
        ensures
            exists|roll: SpawnRoll| #[trigger]
                frame_matches(old(self).model(), final(self).model(), report, *input, roll)
                    && frame_keeps_laws(old(self).model(), final(self).model(), report, *input, roll)
                    && (restarts(old(self).model(), *input, roll) ==> final(self).generator()
                    == seeded_rng(spawn_seed())),
            game_inv(final(self).model()),
            report.change == (if input.back_released { SceneChange::Back } else { SceneChange::Stay }),
    {
        let spawning = self.state != State::Dead && self.state != State::Pause && self.spawn_rate
            >= 20;
        let roll = if spawning {
            self.draw_spawn_roll()
        } else {
            SpawnRoll { speed: 0, column: 0 }
        };
        let report = self.update_with(input, roll);
        report
    }

    /// The phase of the game.
    pub fn state(&self) -> (s: State)
        ensures
            s == self.model().state,
    {
        self.state
    }

    /// The player's life.
    pub fn life(&self) -> (l: i32)
        ensures
            l == self.model().life,
    {
        self.life
    }

    /// The current level.
    pub fn level(&self) -> (l: i32)
        ensures
            l == self.model().level,
    {
        self.level
    }

    /// The score.
    pub fn score(&self) -> (s: i32)
        ensures
            s == self.model().score,
    {
        self.score
    }

    /// The force charged so far.
    pub fn force(&self) -> (f: i32)
        ensures
            f == self.model().force,
    {
        self.force
    }

    /// The player's position.
    pub fn player_position(&self) -> (p: Vec2)
        ensures
            p == self.model().player_position,
    {
        self.player_position
    }

    /// The bullets in play.
    pub fn bullets(&self) -> (b: &Vec<Bullet>)
        ensures
            b@ == self.model().bullets,
    {
        &self.bullets
    }

    /// The enemies in play.
    pub fn enemies(&self) -> (e: &Vec<Enemy>)
        ensures
            e@ == self.model().enemies,
    {
        &self.enemies
    }

    /// Whether the `i32` counters are far enough from their limits for the
    /// next frame (see `frame_headroom`).
    pub fn has_headroom(&self) -> (b: bool)
        ensures
            b == frame_headroom(self.model()),
    {
        let ne = self.enemies.len();
        let nb = self.bullets.len();
        if self.level == i32::MAX {
            return false;
        }
        if ne >= 10_000_000 || nb >= 10_000_000 {
            assert(458 * (ne + 1) * (nb + 1) >= 458 * 10_000_000) by (nonlinear_arith)
                requires
                    ne >= 10_000_000 || nb >= 10_000_000,
            ;
            return false;
        }
        let e1 = ne as i64 + 1;
        let b1 = nb as i64 + 1;
        assert(0 <= e1 * b1 <= 10_000_000 * 10_000_000) by (nonlinear_arith)
            requires
                0 <= e1 <= 10_000_000,
                0 <= b1 <= 10_000_000,
        ;
        let pairs = e1 * b1;
        assert(458 * (ne + 1) * (nb + 1) == 458 * pairs) by (nonlinear_arith)
            requires
                pairs == e1 * b1,
                e1 == ne + 1,
                b1 == nb + 1,
        ;
        let fits_score = self.score as i64 + 458 * pairs <= i32::MAX as i64;
        let fits_life = self.life as i64 - (e1 + 1) >= i32::MIN as i64;
        fits_score && fits_life
    }

    /// One spawn step with the given roll (see `spec_spawn`).
    fn spawn_enemy_with(&mut self, roll: SpawnRoll, effects: &mut Vec<Effect>)
        requires
            old(self).level >= 1,
            old(self).level < i32::MAX,
            old(self).count_spawn >= 0,
            old(self).count_spawn < i32::MAX,
            roll_fits(old(self).level, old(self).count_spawn, roll),
        ensures
            final(self).generator() == old(self).generator(),
            final(self).model() == spec_spawn(old(self).model(), roll).0,
            final(effects)@ == old(effects)@ + spec_spawn(old(self).model(), roll).1,
            final(self).enemies@.len() <= old(self).enemies@.len() + 1,
            (forall|i: int| 0 <= i < old(self).enemies@.len() ==> enemy_ok(#[trigger] old(self).enemies@[i]))
                ==> (forall|i: int| 0 <= i < final(self).enemies@.len() ==> enemy_ok(#[trigger] final(self).enemies@[i])),
            old(self).enemies@.len() < max_enemies(old(self).level) ==> ({
                &&& final(self).enemies@.len() == old(self).enemies@.len() + 1
                &&& final(self).enemies@.last().position == (Vec2 {
                    x: spawn_columns(old(self).level)[roll.column as int],
                    y: -20i32,
                })
                &&& final(self).enemies@.last().velocity == (Vec2 { x: 0i32, y: (1 + roll.speed) as i32 })
                &&& !final(self).enemies@.last().dead
                &&& final(self).enemies@.last().life == (if roll.speed == 2 { 2i32 } else { 1i32 })
            }),
            old(self).enemies@.len() >= max_enemies(old(self).level) ==> final(self).enemies@ == old(self).enemies@,
    {
        let positions = spawn_columns_exec(self.level);
        let x = positions[roll.column];
        let max_enemy = max_enemies_exec(self.level);
        if self.enemies.len() < max_enemy as usize {
            let mut enemy = Enemy::new(Vec2::new(x, -20));
            enemy.set_velocity(Vec2::new(0, enemy.get_velocity().y + roll.speed));
            if roll.speed == 2 {
                enemy.set_life(2);
            }
            self.enemies.push(enemy);
            self.count_spawn += 1;
        }
        let length = 10 * clamp_i32(self.level, 1, 8);
        if self.count_spawn >= length {
            self.level += 1;
            self.count_spawn = 0;
            effects.push(Effect::LevelUp);
        }
        proof {
            let sp = spec_spawn(old(self).model(), roll);
            assert(self.enemies@ =~= sp.0.enemies);
            assert(effects@ =~= old(effects)@ + sp.1);
        }
    }
}

} // verus!
