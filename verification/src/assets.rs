use vstd::prelude::*;

verus! {

/// The sound effects of the game.
#[derive(Debug, Clone, Copy, PartialEq, Eq, Hash, Structural)]
pub enum SoundName {
    ShootSlow,
    ShootFast,
    Hurt,
    Hurt2,
    Pickup,
    NewLevel,
    Charge,
}

/// The animations of the game.
#[derive(Debug, Clone, Copy, PartialEq, Eq, Hash, Structural)]
pub enum AnimationName {
    Player,
    Enemy1,
    Enemy2,
    Enemy3,
    Line,
}

/// The still images of the game.
#[derive(Debug, Clone, Copy, PartialEq, Eq, Hash, Structural)]
pub enum TextureName {
    Life,
    Level,
    Bullet1Up,
    Bullet1Down,
    Bullet2Up,
    Bullet2Down,
    Bullet3Up,
    Bullet3Down,
    Background,
    Particle0,
    Particle1,
    Enemy1a,
    Enemy1b,
    Enemy1c,
    Enemy1d,
}

/// The texts shown by the game.
#[derive(Debug, Clone, Copy, PartialEq, Eq, Hash, Structural)]
pub enum TextName {
    Life,
    Level,
    Score,
    GameOver,
    ScoreGui,
    Pause,
}

/// Where each text is kept in the list of texts: life, level, score,
/// game over, score display and pause, in that order.
pub open spec fn spec_text_slot(name: TextName) -> usize {
    match name {
        TextName::Life => 0,
        TextName::Level => 1,
        TextName::Score => 2,
        TextName::GameOver => 3,
        TextName::ScoreGui => 4,
        TextName::Pause => 5,
    }
}

/// The number of texts the game keeps.
pub const TEXT_COUNT: usize = 6;

/// The slot of a text in the list of texts (see `spec_text_slot`).
pub fn text_slot(name: &TextName) -> (i: usize)
    ensures
        i == spec_text_slot(*name),
        i < TEXT_COUNT,
{
    match name {
        TextName::Life => 0,
        TextName::Level => 1,
        TextName::Score => 2,
        TextName::GameOver => 3,
        TextName::ScoreGui => 4,
        TextName::Pause => 5,
    }
}

/// Different texts are kept in different slots.
pub proof fn lemma_text_slots_distinct(a: TextName, b: TextName)
    ensures
        spec_text_slot(a) == spec_text_slot(b) <==> a == b,
{
}

} // verus!
