use shoot_out_your_life::scenes::title::{TitleInput, TitleScene, MAX_TITLE_PARTICLES};
use shoot_out_your_life::scenes::SceneChange;

fn none() -> TitleInput {
    TitleInput { start_released: false, quit_released: false }
}

#[test]
fn a_particle_every_sixth_frame() {
    let mut t = TitleScene::new();
    assert_eq!(t.spawn_counter(), 0);
    let mut spawned = Vec::new();
    for frame in 1..=18 {
        let f = t.update(0, &none());
        if f.spawn_particle {
            spawned.push(frame);
        }
        assert_eq!(f.change, SceneChange::Stay);
    }
    assert_eq!(spawned, vec![6, 12, 18]);
}

#[test]
fn no_particle_beyond_the_limit() {
    let mut t = TitleScene::new();
    for _ in 0..5 {
        t.update(MAX_TITLE_PARTICLES, &none());
    }
    let f = t.update(MAX_TITLE_PARTICLES, &none());
    assert!(!f.spawn_particle);
    assert_eq!(t.spawn_counter(), 0);
    for _ in 0..5 {
        t.update(99, &none());
    }
    assert!(t.update(99, &none()).spawn_particle);
}

#[test]
fn start_wins_over_quit() {
    let mut t = TitleScene::new();
    let f = t.update(0, &TitleInput { start_released: true, quit_released: true });
    assert_eq!(f.change, SceneChange::StartGame);
    let f = t.update(0, &TitleInput { start_released: false, quit_released: true });
    assert_eq!(f.change, SceneChange::Quit);
}
