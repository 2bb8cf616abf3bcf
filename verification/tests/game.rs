use shoot_out_your_life::assets::{AnimationName, TextureName};
use shoot_out_your_life::bullet::Bullet;
use shoot_out_your_life::enemy::Enemy;
use shoot_out_your_life::geometry::Vec2;
use shoot_out_your_life::scenes::game::{
    bullet_texture, enemy_animation, Effect, FrameReport, GameInput, GameScene, SpawnRoll, State,
};
use shoot_out_your_life::scenes::SceneChange;

fn idle() -> GameInput {
    GameInput {
        right_pressed: false,
        left_pressed: false,
        up_pressed: false,
        down_pressed: false,
        right_down: false,
        left_down: false,
        fire_down: false,
        fire_released: false,
        pause_released: false,
        restart_released: false,
        back_released: false,
    }
}

fn holding_fire() -> GameInput {
    GameInput { fire_down: true, ..idle() }
}

fn releasing_fire() -> GameInput {
    GameInput { fire_released: true, ..idle() }
}

fn column(c: usize) -> SpawnRoll {
    SpawnRoll { speed: 0, column: c }
}

fn budget(g: &GameScene) -> i32 {
    let flying: i32 = g.bullets().iter().filter(|b| !b.broken).map(|b| b.force).sum();
    g.life() + g.force() + flying
}

fn step(g: &mut GameScene, input: &GameInput, roll: SpawnRoll) -> FrameReport {
    assert!(g.has_headroom());
    g.update_with(input, roll)
}

#[test]
fn new_game_starts_fresh() {
    let g = GameScene::new();
    assert_eq!(g.life(), 10);
    assert_eq!(g.level(), 1);
    assert_eq!(g.score(), 0);
    assert_eq!(g.force(), 0);
    assert_eq!(g.state(), State::Normal);
    assert_eq!(g.player_position(), Vec2::new(120, 404));
    assert!(g.bullets().is_empty());
    assert!(g.enemies().is_empty());
    assert!(g.has_headroom());
    assert_eq!(budget(&g), 10);
}

#[test]
fn charging_turns_life_into_force_and_firing_launches_it() {
    let mut g = GameScene::new();
    let r = step(&mut g, &holding_fire(), column(0));
    assert!(r.active);
    assert_eq!(r.effects, vec![Effect::ChargeStarted]);
    assert_eq!(g.state(), State::Pressed);
    assert_eq!((g.life(), g.force()), (9, 1));
    for _ in 0..10 {
        let r = step(&mut g, &holding_fire(), column(0));
        assert!(r.effects.is_empty());
        assert_eq!((g.life(), g.force()), (9, 1));
    }
    let r = step(&mut g, &holding_fire(), column(0));
    assert_eq!(r.effects, vec![Effect::Charged { force: 2 }]);
    assert_eq!((g.life(), g.force()), (8, 2));
    assert_eq!(budget(&g), 10);
    let r = step(&mut g, &releasing_fire(), column(0));
    assert_eq!(r.effects, vec![Effect::Shot { kind: 2 }]);
    assert_eq!(g.state(), State::Normal);
    assert_eq!((g.life(), g.force()), (8, 0));
    assert_eq!(g.bullets().len(), 1);
    let b = g.bullets()[0];
    assert_eq!(b.position, Vec2::new(120, 409));
    assert_eq!(b.velocity, Vec2::new(0, -5));
    assert_eq!((b.force, b.kind), (2, 2));
    assert_eq!(r.bullet_trail, vec![Vec2::new(120, 409)]);
    assert_eq!(budget(&g), 10);
}

#[test]
fn releasing_without_charge_does_nothing() {
    let mut g = GameScene::new();
    let r = step(&mut g, &releasing_fire(), column(0));
    assert!(r.effects.is_empty());
    assert!(g.bullets().is_empty());
    assert_eq!(g.life(), 10);
}

#[test]
fn returning_bullet_gives_its_force_back() {
    let mut g = GameScene::new();
    step(&mut g, &holding_fire(), column(0));
    step(&mut g, &releasing_fire(), column(0));
    assert_eq!(g.life(), 9);
    let mut turned = false;
    let mut caught = false;
    for _ in 0..1000 {
        let r = step(&mut g, &idle(), column(0));
        assert!(!r.effects.contains(&Effect::PlayerHurt));
        if let Some(b) = g.bullets().first() {
            if b.position.x == 20 {
                turned = true;
            }
        }
        if r.effects.contains(&Effect::LifeCollected) {
            caught = true;
            assert!(g.bullets()[0].broken);
            assert!(g.bullets()[0].position.y >= 412);
            break;
        }
        assert_eq!(budget(&g), 10);
    }
    assert!(turned);
    assert!(caught);
    assert_eq!(g.life(), 10);
    step(&mut g, &idle(), column(0));
    assert!(g.bullets().is_empty());
}

#[test]
fn hitting_an_enemy_scores_and_refunds_life() {
    let mut g = GameScene::new();
    step(&mut g, &holding_fire(), column(2));
    step(&mut g, &releasing_fire(), column(2));
    let mut hit = false;
    for _ in 0..600 {
        let r = step(&mut g, &idle(), column(2));
        if let Some(Effect::EnemyHit { score }) = r.effects.iter().copied().find(|e| matches!(e, Effect::EnemyHit { .. })) {
            let e: Enemy = g.enemies()[0];
            assert!(e.dead);
            assert_eq!(e.position.x, 120);
            let expected = 50 + ((480 - e.position.y) / 5) * 1;
            assert_eq!(score, expected);
            assert_eq!(g.score(), expected);
            assert_eq!(g.life(), 10);
            assert!(g.bullets()[0].broken);
            assert_eq!(g.bullets()[0].force, 0);
            hit = true;
            break;
        }
    }
    assert!(hit);
}

#[test]
fn movement_between_lanes() {
    let mut g = GameScene::new();
    let right = GameInput { right_pressed: true, ..idle() };
    let left = GameInput { left_pressed: true, ..idle() };
    for x in [140, 160, 180, 200, 200] {
        step(&mut g, &right, column(0));
        assert_eq!(g.player_position(), Vec2::new(x, 404));
    }
    step(&mut g, &left, column(0));
    assert_eq!(g.player_position().x, 180);
    step(&mut g, &GameInput { down_pressed: true, ..idle() }, column(0));
    assert_eq!(g.player_position().x, 40);
    step(&mut g, &left, column(0));
    assert_eq!(g.player_position().x, 40);
    step(&mut g, &GameInput { up_pressed: true, ..idle() }, column(0));
    assert_eq!(g.player_position().x, 200);
}

#[test]
fn holding_a_direction_repeats_every_eight_frames() {
    let mut g = GameScene::new();
    let hold = GameInput { right_down: true, ..idle() };
    step(&mut g, &hold, column(0));
    assert_eq!(g.player_position().x, 140);
    for _ in 0..7 {
        step(&mut g, &hold, column(0));
        assert_eq!(g.player_position().x, 140);
    }
    step(&mut g, &hold, column(0));
    assert_eq!(g.player_position().x, 160);
}

#[test]
fn pause_freezes_the_game() {
    let mut g = GameScene::new();
    step(&mut g, &holding_fire(), column(0));
    step(&mut g, &releasing_fire(), column(0));
    let r = step(&mut g, &GameInput { pause_released: true, ..idle() }, column(0));
    assert!(r.active);
    assert_eq!(g.state(), State::Pause);
    let before = g.bullets()[0];
    for _ in 0..30 {
        let r = step(&mut g, &holding_fire(), column(0));
        assert!(!r.active);
        assert!(r.effects.is_empty());
        assert!(r.bullet_trail.is_empty());
    }
    assert_eq!(g.bullets()[0].position, before.position);
    assert!(g.enemies().is_empty());
    assert_eq!(g.life(), 9);
    let r = step(&mut g, &GameInput { pause_released: true, ..idle() }, column(0));
    assert!(!r.active);
    assert_eq!(g.state(), State::Normal);
}

#[test]
fn no_pause_while_charging() {
    let mut g = GameScene::new();
    step(&mut g, &holding_fire(), column(0));
    step(&mut g, &GameInput { fire_down: true, pause_released: true, ..idle() }, column(0));
    assert_eq!(g.state(), State::Pressed);
}

#[test]
fn back_button_leaves_the_scene() {
    let mut g = GameScene::new();
    let r = step(&mut g, &GameInput { back_released: true, ..idle() }, column(0));
    assert_eq!(r.change, SceneChange::Back);
    let r = step(&mut g, &idle(), column(0));
    assert_eq!(r.change, SceneChange::Stay);
}

#[test]
fn spending_all_life_and_getting_hurt_kills_then_restart() {
    let mut g = GameScene::new();
    let mut hurts = 0;
    let mut died = None;
    for _ in 0..2000 {
        let r = step(&mut g, &holding_fire(), column(0));
        hurts += r.effects.iter().filter(|e| **e == Effect::PlayerHurt).count();
        if let Some(Effect::PlayerDied { score }) = r.effects.iter().copied().find(|e| matches!(e, Effect::PlayerDied { .. })) {
            died = Some(score);
            break;
        }
        if g.state() != State::Dead {
            assert!(budget(&g) == 10 - hurts as i32);
        }
    }
    assert_eq!(died, Some(0));
    assert_eq!(hurts, 1);
    assert_eq!(g.state(), State::Dead);
    assert_eq!((g.life(), g.force()), (-1, 10));
    // a dead game stands still, even when paused
    let r = step(&mut g, &GameInput { pause_released: true, ..idle() }, column(0));
    assert!(!r.active);
    assert_eq!(g.state(), State::Dead);
    let r = step(&mut g, &GameInput { restart_released: true, ..idle() }, column(0));
    assert!(!r.active);
    assert_eq!(g.state(), State::Normal);
    assert_eq!((g.life(), g.force(), g.score(), g.level()), (10, 0, 0, 1));
    assert_eq!(g.player_position(), Vec2::new(120, 384));
    assert!(g.bullets().is_empty());
    assert!(g.enemies().is_empty());
    assert_eq!(budget(&g), 10);
}

#[test]
fn ten_spawns_finish_the_first_level() {
    let mut g = GameScene::new();
    let mut hurts = 0;
    let mut columns = Vec::new();
    let mut level_up = false;
    for _ in 0..20000 {
        let before = g.enemies().len();
        assert!(g.has_headroom());
        let r = g.update(&idle());
        if g.enemies().len() > before || (before > 0 && g.enemies().len() == before && g.enemies().last().unwrap().position.y == -19) {
            columns.push(g.enemies().last().unwrap().position.x);
        }
        hurts += r.effects.iter().filter(|e| **e == Effect::PlayerHurt).count();
        if r.effects.contains(&Effect::LevelUp) {
            level_up = true;
            break;
        }
    }
    assert!(level_up);
    assert_eq!(g.level(), 2);
    assert_eq!(hurts, 9);
    assert_eq!(g.life(), 1);
    assert_eq!(g.enemies().len(), 1);
    assert_eq!(columns.len(), 10);
    for x in &columns {
        assert!([80, 100, 120, 140, 160].contains(x));
    }
    assert!(columns.iter().any(|x| *x != columns[0]));
}

#[test]
fn every_game_sees_the_same_enemies() {
    let mut a = GameScene::new();
    let mut b = GameScene::new();
    for _ in 0..3000 {
        a.update(&idle());
        b.update(&idle());
        let pa: Vec<Vec2> = a.enemies().iter().map(|e| e.position).collect();
        let pb: Vec<Vec2> = b.enemies().iter().map(|e| e.position).collect();
        assert_eq!(pa, pb);
    }
}

#[test]
fn drawing_choices() {
    let up = Bullet::new(Vec2::new(100, 100), 1, 1);
    assert_eq!(bullet_texture(&up), TextureName::Bullet1Up);
    let mut down = Bullet::new(Vec2::new(100, 100), 2, 2);
    down.set_velocity(Vec2::new(0, 5));
    assert_eq!(bullet_texture(&down), TextureName::Bullet2Down);
    let big = Bullet::new(Vec2::new(100, 100), 7, 4);
    assert_eq!(bullet_texture(&big), TextureName::Bullet3Up);
    let mut e = Enemy::new(Vec2::new(80, 0));
    assert_eq!(enemy_animation(&e), AnimationName::Enemy1);
    e.set_velocity(Vec2::new(0, 2));
    assert_eq!(enemy_animation(&e), AnimationName::Enemy2);
    e.set_velocity(Vec2::new(0, 3));
    assert_eq!(enemy_animation(&e), AnimationName::Enemy3);
    e.set_velocity(Vec2::new(0, 0));
    assert_eq!(enemy_animation(&e), AnimationName::Enemy3);
}

/// A simple player: it walks under the lowest living enemy and fires single
/// shots at it.
fn bot_input(g: &GameScene) -> GameInput {
    let mut input = idle();
    let target = g
        .enemies()
        .iter()
        .filter(|e| !e.dead)
        .max_by_key(|e| e.position.y)
        .map(|e| e.position.x);
    let px = g.player_position().x;
    if g.force() > 0 {
        input.fire_released = true;
    }
    if let Some(tx) = target {
        if tx > px {
            input.right_pressed = true;
        } else if tx < px {
            input.left_pressed = true;
        } else if g.force() == 0 && g.life() > 1 {
            let covered = g
                .bullets()
                .iter()
                .any(|b| !b.broken && !b.is_returning() && b.position.x == tx);
            if !covered {
                input.fire_down = true;
            }
        }
    }
    input
}

#[test]
fn faster_enemies_appear_from_level_three() {
    let mut g = GameScene::new();
    let mut speeds_on_level_three = Vec::new();
    let mut frames = 0;
    while g.level() < 5 && frames < 100_000 {
        frames += 1;
        assert_ne!(g.state(), State::Dead);
        assert!(g.has_headroom());
        let before = g.enemies().len();
        let level = g.level();
        let input = bot_input(&g);
        g.update(&input);
        let fresh = g.enemies().iter().filter(|e| e.position.y == -20 + e.velocity.y).count();
        if level >= 3 && fresh > 0 && g.enemies().len() >= before {
            for e in g.enemies().iter().filter(|e| e.position.y == -20 + e.velocity.y) {
                speeds_on_level_three.push(e.velocity.y);
            }
        }
        assert!(g.life() <= 10);
    }
    assert_eq!(g.level(), 5);
    assert!(speeds_on_level_three.iter().all(|v| *v == 1 || *v == 2));
    assert!(speeds_on_level_three.contains(&1));
    assert!(speeds_on_level_three.contains(&2));
    assert!(g.score() > 0);
}

fn first_spawn_columns(g: &mut GameScene, count: usize) -> Vec<i32> {
    let mut columns = Vec::new();
    for _ in 0..20000 {
        assert!(g.has_headroom());
        g.update(&idle());
        for e in g.enemies().iter() {
            if e.position.y == -19 {
                columns.push(e.position.x);
            }
        }
        if columns.len() >= count {
            break;
        }
    }
    columns
}

#[test]
fn a_restarted_game_sees_the_enemies_of_a_new_game() {
    let mut a = GameScene::new();
    for _ in 0..2000 {
        step(&mut a, &holding_fire(), column(0));
        if a.state() == State::Dead {
            break;
        }
    }
    assert_eq!(a.state(), State::Dead);
    step(&mut a, &GameInput { restart_released: true, ..idle() }, column(0));
    assert_eq!(a.state(), State::Normal);
    let mut b = GameScene::new();
    let ca = first_spawn_columns(&mut a, 5);
    let cb = first_spawn_columns(&mut b, 5);
    assert_eq!(ca.len(), 5);
    assert_eq!(ca, cb);
}
