use vstd::prelude::*;
use crate::geometry::Vec2;

verus! {

/// An enemy walking down the field. A blue enemy has two lives; when it
/// loses the first one it is pushed back and slows down.
#[derive(Clone, Copy, Debug)]
pub struct Enemy {
    pub position: Vec2,
    pub area: (i32, i32),
    pub velocity: Vec2,
    pub dead: bool,
    pub life: i32,
}

/// A plain enemy (one life) dies from one hit and stops where it was hit.
pub proof fn law_one_hit_kills_plain_enemy(e: Enemy)
    requires
        e.life == 1,
    ensures
        e.spec_hurt().dead,
        e.spec_hurt().life == 0,
        e.spec_hurt().position == e.position,
        e.spec_hurt().velocity == (Vec2 { x: 0i32, y: 0i32 }),
{
}

/// A living blue enemy (two lives) survives the first hit, pushed back 10 pixels
/// and slowed to one pixel per frame, and dies from the second, where the
/// first hit left it.
pub proof fn law_blue_enemy_takes_two_hits(e: Enemy)
    requires
        e.life == 2,
        !e.dead,
        e.can_hurt(),
    ensures
        !e.spec_hurt().dead,
        e.spec_hurt().life == 1,
        e.spec_hurt().position == (Vec2 { x: e.position.x, y: (e.position.y - 10) as i32 }),
        e.spec_hurt().velocity == (Vec2 { x: 0i32, y: 1i32 }),
        e.spec_hurt().spec_hurt().dead,
        e.spec_hurt().spec_hurt().position == e.spec_hurt().position,
{
}

impl Enemy {
    /// A new living enemy of area 19 by 17 with one life, walking down at
    /// one pixel per frame.
    pub open spec fn spec_new(position: Vec2) -> Enemy {
        Enemy { position, area: (19, 17), velocity: Vec2 { x: 0i32, y: 1i32 }, dead: false, life: 1 }
    }

    /// Whether one frame of movement stays inside `i32`.
    pub open spec fn can_step(self) -> bool {
        !self.dead ==> self.position.can_add(self.velocity)
    }

    /// One frame: a living enemy moves by its velocity, a dead one stays.
    pub open spec fn spec_step(self) -> Enemy {
        if !self.dead {
            Enemy { position: self.position.spec_add(self.velocity), ..self }
        } else {
            self
        }
    }

    /// Whether a hit stays inside `i32`.
    pub open spec fn can_hurt(self) -> bool {
        self.life == 2 ==> self.position.y - 10 >= i32::MIN
    }

    /// The enemy after one hit. An enemy with exactly two lives (a blue one)
    /// is first pushed back 10 pixels and slowed to one pixel per frame;
    /// then a positive life count drops by one; an enemy left with no life
    /// is dead and stands still.
    pub open spec fn spec_hurt(self) -> Enemy {
        let e1 = if self.life == 2 {
            Enemy {
                velocity: Vec2 { x: 0i32, y: 1i32 },
                position: Vec2 { x: self.position.x, y: (self.position.y - 10) as i32 },
                ..self
            }
        } else {
            self
        };
        let e2 = if e1.life >= 1 { Enemy { life: (e1.life - 1) as i32, ..e1 } } else { e1 };
        if e2.life == 0 {
            Enemy { dead: true, velocity: Vec2 { x: 0i32, y: 0i32 }, ..e2 }
        } else {
            e2
        }
    }

    /// A new enemy at `position` (see `spec_new`).
    pub fn new(position: Vec2) -> (e: Enemy)
        ensures
            e == Enemy::spec_new(position),
    {
        let velocity = Vec2::new(0, 1);
        Enemy { position, area: (19, 17), velocity, dead: false, life: 1 }
    }

    /// Advances the enemy by one frame (see `spec_step`).
    pub fn update(&mut self)
        requires
            old(self).can_step(),
        ensures
            *final(self) == old(self).spec_step(),
    {
        if !self.dead {
            self.position = self.position.add(self.velocity);
        }
    }

    /// Replaces the life count; nothing else changes.
    pub fn set_life(&mut self, life: i32)
        ensures
            *final(self) == (Enemy { life, ..*old(self) }),
    {
        self.life = life;
    }

    /// The lives left.
    pub fn get_life(&self) -> (l: i32)
        ensures
            l == self.life,
    {
        self.life
    }

    /// The size of the enemy's hit box.
    pub fn get_area(&self) -> (a: (i32, i32))
        ensures
            a == self.area,
    {
        self.area
    }

    /// The position of the enemy.
    pub fn get_position(&self) -> (p: Vec2)
        ensures
            p == self.position,
    {
        self.position
    }

    /// Whether the enemy is dead.
    pub fn is_dead(&self) -> (d: bool)
        ensures
            d == self.dead,
    {
        self.dead
    }

    /// The velocity of the enemy.
    pub fn get_velocity(&self) -> (v: Vec2)
        ensures
            v == self.velocity,
    {
        self.velocity
    }

    /// Hits the enemy once (see `spec_hurt`).
    pub fn hurt(&mut self)
        requires
            old(self).can_hurt(),
        ensures
            *final(self) == old(self).spec_hurt(),
    {
        if self.life == 2 {
            self.velocity = Vec2::new(0, 1);
            self.position.y -= 10;
        }
        if self.life >= 1 {
            self.life -= 1;
        }
        if self.life == 0 {
            self.dead = true;
            self.velocity = Vec2::new(0, 0);
        }
    }

    /// Replaces the velocity; nothing else changes.
    pub fn set_velocity(&mut self, velocity: Vec2)
        ensures
            *final(self) == (Enemy { velocity, ..*old(self) }),
    {
        self.velocity = velocity;
    }
}

} // verus!
