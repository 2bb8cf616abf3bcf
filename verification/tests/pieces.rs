use shoot_out_your_life::assets::{text_slot, TextName, TEXT_COUNT};
use shoot_out_your_life::bullet::{get_velocity_from_force, Bullet};
use shoot_out_your_life::enemy::Enemy;
use shoot_out_your_life::geometry::Vec2;
use shoot_out_your_life::info::{GameInformation, Window, GAME_VERSION};

#[test]
fn vec2_new_and_add() {
    let a = Vec2::new(3, -4);
    assert_eq!((a.x, a.y), (3, -4));
    let b = a.add(Vec2::new(10, 20));
    assert_eq!(b, Vec2::new(13, 16));
}

#[test]
fn game_information_window_and_version() {
    let info = GameInformation::new();
    assert_eq!(info.window.width, 240);
    assert_eq!(info.window.height, 460);
    assert_eq!(info.version, GAME_VERSION);
    assert_eq!(info.version, "0.1.0");
    assert_eq!(info.window.get_half(), Vec2::new(120, 230));
}

#[test]
fn window_half_rounds_down() {
    let w = Window { width: 7, height: 9 };
    assert_eq!(w.get_half(), Vec2::new(3, 4));
}

#[test]
fn text_slots_follow_the_text_list() {
    assert_eq!(text_slot(&TextName::Life), 0);
    assert_eq!(text_slot(&TextName::Level), 1);
    assert_eq!(text_slot(&TextName::Score), 2);
    assert_eq!(text_slot(&TextName::GameOver), 3);
    assert_eq!(text_slot(&TextName::ScoreGui), 4);
    assert_eq!(text_slot(&TextName::Pause), 5);
    let all = [
        TextName::Life,
        TextName::Level,
        TextName::Score,
        TextName::GameOver,
        TextName::ScoreGui,
        TextName::Pause,
    ];
    for (i, a) in all.iter().enumerate() {
        assert!(text_slot(a) < TEXT_COUNT);
        for (j, b) in all.iter().enumerate() {
            assert_eq!(text_slot(a) == text_slot(b), i == j);
        }
    }
}

#[test]
fn bullet_new_flies_up_slowly() {
    let b = Bullet::new(Vec2::new(120, 414), 3, 3);
    assert_eq!(b.get_position(), Vec2::new(120, 414));
    assert_eq!(b.get_area(), (4, 4));
    assert_eq!(b.velocity, Vec2::new(0, -3));
    assert!(!b.is_broken());
    assert_eq!(b.get_force(), 3);
    assert_eq!(b.get_kind(), 3);
    assert!(!b.is_returning());
}

#[test]
fn velocity_from_force_table() {
    assert_eq!(get_velocity_from_force(1), Vec2::new(0, -3));
    assert_eq!(get_velocity_from_force(2), Vec2::new(0, -5));
    assert_eq!(get_velocity_from_force(3), Vec2::new(0, -8));
    assert_eq!(get_velocity_from_force(4), Vec2::new(0, -10));
    assert_eq!(get_velocity_from_force(0), Vec2::new(0, -10));
    assert_eq!(get_velocity_from_force(99), Vec2::new(0, -10));
}

#[test]
fn stronger_force_flies_faster() {
    for f1 in 1..6 {
        for f2 in f1..6 {
            assert!(get_velocity_from_force(f2).y <= get_velocity_from_force(f1).y);
        }
    }
}

#[test]
fn bullet_update_moves_and_turns() {
    let mut b = Bullet::new(Vec2::new(100, 50), 1, 1);
    b.update();
    assert_eq!(b.get_position(), Vec2::new(100, 47));
    // left half of the field: back down on lane 20
    let mut b = Bullet::new(Vec2::new(100, -28), 1, 1);
    b.update();
    assert_eq!(b.get_position(), Vec2::new(20, -31));
    assert_eq!(b.velocity, Vec2::new(0, 3));
    assert!(b.is_returning());
    b.update();
    assert_eq!(b.get_position(), Vec2::new(20, -28));
    // lane 120 still counts as left, 121 as right
    let mut b = Bullet::new(Vec2::new(120, -30), 1, 1);
    b.update();
    assert_eq!(b.get_position().x, 20);
    let mut b = Bullet::new(Vec2::new(121, -30), 1, 1);
    b.update();
    assert_eq!(b.get_position().x, 220);
    // exactly at -30 is not above the turning height
    let mut b = Bullet::new(Vec2::new(150, -27), 1, 1);
    b.update();
    assert_eq!(b.get_position(), Vec2::new(150, -30));
    assert!(!b.is_returning());
}

#[test]
fn broken_bullet_stays() {
    let mut b = Bullet::new(Vec2::new(60, 100), 1, 1);
    b.set_broken();
    assert!(b.is_broken());
    b.update();
    assert_eq!(b.get_position(), Vec2::new(60, 100));
}

#[test]
fn consume_force_breaks_at_zero() {
    let mut b = Bullet::new(Vec2::new(60, 100), 2, 2);
    b.consume_force();
    assert_eq!(b.get_force(), 1);
    assert!(!b.is_broken());
    b.consume_force();
    assert_eq!(b.get_force(), 0);
    assert!(b.is_broken());
    b.consume_force();
    assert_eq!(b.get_force(), 0);
    assert!(b.is_broken());
    let mut z = Bullet::new(Vec2::new(60, 100), 0, 1);
    z.consume_force();
    assert!(z.is_broken());
    let mut neg = Bullet::new(Vec2::new(60, 100), -2, 1);
    neg.consume_force();
    assert_eq!(neg.get_force(), -2);
    assert!(!neg.is_broken());
}

#[test]
fn set_velocity_only_changes_velocity() {
    let mut b = Bullet::new(Vec2::new(60, 100), 2, 2);
    b.set_velocity(Vec2::new(0, 7));
    assert_eq!(b.velocity, Vec2::new(0, 7));
    assert!(b.is_returning());
    assert_eq!(b.get_position(), Vec2::new(60, 100));
}

#[test]
fn enemy_new_walks_down() {
    let mut e = Enemy::new(Vec2::new(80, -20));
    assert_eq!(e.get_area(), (19, 17));
    assert_eq!(e.get_velocity(), Vec2::new(0, 1));
    assert_eq!(e.get_life(), 1);
    assert!(!e.is_dead());
    e.update();
    assert_eq!(e.get_position(), Vec2::new(80, -19));
}

#[test]
fn enemy_hurt_kills_and_stops() {
    let mut e = Enemy::new(Vec2::new(80, 100));
    e.set_velocity(Vec2::new(0, 2));
    e.hurt();
    assert_eq!(e.get_life(), 0);
    assert!(e.is_dead());
    assert_eq!(e.get_velocity(), Vec2::new(0, 0));
    assert_eq!(e.get_position(), Vec2::new(80, 100));
    e.update();
    assert_eq!(e.get_position(), Vec2::new(80, 100));
}

#[test]
fn blue_enemy_is_pushed_back_then_dies() {
    let mut e = Enemy::new(Vec2::new(120, 100));
    e.set_velocity(Vec2::new(0, 3));
    e.set_life(2);
    e.hurt();
    assert_eq!(e.get_life(), 1);
    assert!(!e.is_dead());
    assert_eq!(e.get_position(), Vec2::new(120, 90));
    assert_eq!(e.get_velocity(), Vec2::new(0, 1));
    e.hurt();
    assert_eq!(e.get_life(), 0);
    assert!(e.is_dead());
    assert_eq!(e.get_position(), Vec2::new(120, 90));
}

#[test]
fn enemy_without_life_dies_when_hurt() {
    let mut e = Enemy::new(Vec2::new(120, 100));
    e.set_life(0);
    e.hurt();
    assert_eq!(e.get_life(), 0);
    assert!(e.is_dead());
    let mut e3 = Enemy::new(Vec2::new(120, 100));
    e3.set_life(3);
    e3.hurt();
    assert_eq!(e3.get_life(), 2);
    assert_eq!(e3.get_position(), Vec2::new(120, 100));
}
