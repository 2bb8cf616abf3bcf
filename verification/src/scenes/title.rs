use vstd::prelude::*;
use crate::scenes::SceneChange;

verus! {

/// The title screen keeps at most this many falling particles.
pub const MAX_TITLE_PARTICLES: usize = 100;

/// A new particle may appear when the spawn counter passes this value.
pub const TITLE_SPAWN_INTERVAL: i32 = 5;

/// The buttons the title screen reads in one frame.
#[derive(Debug, Clone, Copy)]
pub struct TitleInput {
    /// Space, Return, gamepad A or gamepad Start was released.
    pub start_released: bool,
    /// Escape, Backspace or gamepad Back was released.
    pub quit_released: bool,
}

/// What the title screen decided in one frame.
#[derive(Debug, Clone, Copy)]
pub struct TitleFrame {
    /// Whether a new falling particle appears.
    pub spawn_particle: bool,
    /// Whether to start a game, quit, or stay.
    pub change: SceneChange,
}

/// The logic of the title screen: a counter that lets a particle fall every
/// sixth frame, and the buttons that start or quit the game.
pub struct TitleScene {
    spawn_rate: i32,
}

/// The counter after one frame: it counts up and starts again from 0 once
/// it passes `TITLE_SPAWN_INTERVAL`.
pub open spec fn next_spawn_counter(c: i32) -> i32 {
    if c + 1 > TITLE_SPAWN_INTERVAL { 0 } else { (c + 1) as i32 }
}

/// What a frame of the title screen decides, from the counter, the number of
/// particles left after the dead ones are removed and the buttons: a particle
/// appears when the counter passes the interval and there are fewer than
/// `MAX_TITLE_PARTICLES`; a start button starts a game, otherwise a quit
/// button quits.
pub open spec fn spec_title_frame(c: i32, particle_count: usize, input: TitleInput) -> TitleFrame {
    TitleFrame {
        spawn_particle: c + 1 > TITLE_SPAWN_INTERVAL && particle_count < MAX_TITLE_PARTICLES,
        change: if input.start_released {
            SceneChange::StartGame
        } else if input.quit_released {
            SceneChange::Quit
        } else {
            SceneChange::Stay
        },
    }
}

impl TitleScene {
    #[verifier::type_invariant]
    spec fn counter_in_range(self) -> bool {
        0 <= self.spawn_rate <= TITLE_SPAWN_INTERVAL
    }

    /// The spawn counter.
    pub closed spec fn counter(self) -> i32 {
        self.spawn_rate
    }

    /// A title screen with its counter at 0.
    pub fn new() -> (t: TitleScene)
        ensures
            t.counter() == 0,
    {
        TitleScene { spawn_rate: 0 }
    }

    /// The spawn counter.
    pub fn spawn_counter(&self) -> (c: i32)
        ensures
            c == self.counter(),
            0 <= c <= TITLE_SPAWN_INTERVAL,
    {
        proof {
            use_type_invariant(self);
        }
        self.spawn_rate
    }

    /// One frame (see `spec_title_frame` and `next_spawn_counter`).
    pub fn update(&mut self, particle_count: usize, input: &TitleInput) -> (f: TitleFrame)
        ensures
            f == spec_title_frame(old(self).counter(), particle_count, *input),
            final(self).counter() == next_spawn_counter(old(self).counter()),
    {
        proof {
            use_type_invariant(&*self);
        }
        let mut spawn_particle = false;
        let next = self.spawn_rate + 1;
        if next > TITLE_SPAWN_INTERVAL {
            spawn_particle = particle_count < MAX_TITLE_PARTICLES;
            self.spawn_rate = 0;
        } else {
            self.spawn_rate = next;
        }
        let change = if input.start_released {
            SceneChange::StartGame
        } else if input.quit_released {
            SceneChange::Quit
        } else {
            SceneChange::Stay
        };
        TitleFrame { spawn_particle, change }
    }
}

} // verus!
