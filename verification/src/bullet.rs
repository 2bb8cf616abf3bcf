use vstd::prelude::*;
use crate::geometry::Vec2;

verus! {

/// A shot fired by the player. It flies up, turns around above the top of
/// the field and comes back down, where the player can catch it again.
#[derive(Clone, Copy, Debug)]
pub struct Bullet {
    pub position: Vec2,
    pub area: (i32, i32),
    pub velocity: Vec2,
    pub broken: bool,
    pub force: i32,
    pub kind: i32,
}

/// Above this height (`y < -30`) a bullet turns around.
pub const TURN_HEIGHT: i32 = -30;

/// The velocity of a freshly fired bullet of the given force:
/// force 1 flies 3 pixels per frame, 2 flies 5, 3 flies 8 and anything else 10,
/// always straight up.
pub open spec fn spec_velocity_from_force(force: i32) -> Vec2 {
    if force == 1 {
        Vec2 { x: 0i32, y: -3i32 }
    } else if force == 2 {
        Vec2 { x: 0i32, y: -5i32 }
    } else if force == 3 {
        Vec2 { x: 0i32, y: -8i32 }
    } else {
        Vec2 { x: 0i32, y: -10i32 }
    }
}

/// The launch velocity that belongs to a force (see `spec_velocity_from_force`).
pub fn get_velocity_from_force(force: i32) -> (v: Vec2)
    ensures
        v == spec_velocity_from_force(force),
{
    match force {
        1 => Vec2::new(0, -3),
        2 => Vec2::new(0, -5),
        3 => Vec2::new(0, -8),
        _ => Vec2::new(0, -10),
    }
}

/// A stronger shot never flies slower: for forces `1 <= f1 <= f2` the launch
/// velocity of `f2` points at least as far upwards as that of `f1`.
pub proof fn law_faster_with_more_force(f1: i32, f2: i32)
    requires
        1 <= f1 <= f2,
    ensures
        spec_velocity_from_force(f2).y <= spec_velocity_from_force(f1).y < 0,
        spec_velocity_from_force(f1).x == 0,
{
}

/// Spending force one unit at a time, a bullet with force 1 or 2 stays
/// whole until its last unit is spent and breaks with it.
pub proof fn law_bullet_breaks_with_its_last_force(b: Bullet)
    requires
        !b.broken,
        1 <= b.force <= 2,
    ensures
        b.force == 1 ==> b.spec_consume().broken && b.spec_consume().force == 0,
        b.force == 2 ==> !b.spec_consume().broken && b.spec_consume().spec_consume().broken,
{
}

impl Bullet {
    /// A new, unbroken bullet of area 4 by 4 flying up at 3 pixels per frame.
    pub open spec fn spec_new(position: Vec2, force: i32, kind: i32) -> Bullet {
        Bullet {
            position,
            area: (4, 4),
            velocity: Vec2 { x: 0i32, y: -3i32 },
            broken: false,
            force,
            kind,
        }
    }

    /// The position after one frame of movement: a broken bullet stays put.
    pub open spec fn moved(self) -> Vec2 {
        if !self.broken {
            self.position.spec_add(self.velocity)
        } else {
            self.position
        }
    }

    /// Whether one frame of movement stays inside `i32`.
    pub open spec fn can_step(self) -> bool {
        &&& !self.broken ==> self.position.can_add(self.velocity)
        &&& self.moved().y < TURN_HEIGHT ==> self.velocity.y != i32::MIN
    }

    /// One frame: an unbroken bullet moves by its velocity; a bullet that is
    /// then above the turning height is put on the left (`x = 20`) or right
    /// (`x = 220`) return lane, by which half of the field it is in, and its
    /// vertical velocity is reversed (its horizontal velocity becomes 0).
    pub open spec fn spec_step(self) -> Bullet {
        let p = self.moved();
        if p.y < TURN_HEIGHT {
            Bullet {
                position: Vec2 { x: if p.x <= 120 { 20 } else { 220 }, y: p.y },
                velocity: Vec2 { x: 0, y: (-self.velocity.y) as i32 },
                ..self
            }
        } else {
            Bullet { position: p, ..self }
        }
    }

    /// The bullet after losing one unit of force: the force drops by one if it
    /// is at least 1, and the bullet breaks once its force is 0.
    pub open spec fn spec_consume(self) -> Bullet {
        let f = if self.force >= 1 { (self.force - 1) as i32 } else { self.force };
        Bullet { force: f, broken: self.broken || f == 0, ..self }
    }

    /// Whether the bullet is on its way back down.
    pub open spec fn spec_returning(self) -> bool {
        self.velocity.y >= 0
    }

    /// A new bullet at `position` (see `spec_new`).
    pub fn new(position: Vec2, force: i32, kind: i32) -> (b: Bullet)
        ensures
            b == Bullet::spec_new(position, force, kind),
    {
        let velocity = Vec2::new(0, -3);
        let area = (4, 4);
        Bullet { position, area, velocity, broken: false, force, kind }
    }

    /// Advances the bullet by one frame (see `spec_step`).
    pub fn update(&mut self)
        requires
            old(self).can_step(),
        ensures
            *final(self) == old(self).spec_step(),
    {
        if !self.broken {
            self.position = self.position.add(self.velocity);
        }
        if self.position.y < TURN_HEIGHT {
            if self.position.x <= 120 {
                self.position.x = 20;
            } else {
                self.position.x = 220;
            }
            self.velocity = Vec2::new(0, -self.velocity.y);
        }
    }

    /// The size of the bullet's hit box.
    pub fn get_area(&self) -> (a: (i32, i32))
        ensures
            a == self.area,
    {
        self.area
    }

    /// The kind of the bullet (its force when fired, clamped to 1..=4).
    pub fn get_kind(&self) -> (k: i32)
        ensures
            k == self.kind,
    {
        self.kind
    }

    /// The position of the bullet.
    pub fn get_position(&self) -> (p: Vec2)
        ensures
            p == self.position,
    {
        self.position
    }

    /// Whether the bullet is used up.
    pub fn is_broken(&self) -> (b: bool)
        ensures
            b == self.broken,
    {
        self.broken
    }

    /// Marks the bullet as used up; nothing else changes.
    pub fn set_broken(&mut self)
        ensures
            *final(self) == (Bullet { broken: true, ..*old(self) }),
    {
        self.broken = true;
    }

    /// Spends one unit of force (see `spec_consume`).
    pub fn consume_force(&mut self)
        ensures
            *final(self) == old(self).spec_consume(),
    {
        if self.force >= 1 {
            self.force -= 1;
        }
        if self.force == 0 {
            self.broken = true;
        }
    }

    /// Whether the bullet is falling back (its vertical velocity is not upwards).
    pub fn is_returning(&self) -> (r: bool)
        ensures
            r == self.spec_returning(),
    {
        self.velocity.y >= 0
    }

    /// The force left in the bullet.
    pub fn get_force(&self) -> (f: i32)
        ensures
            f == self.force,
    {
        self.force
    }

    /// Replaces the velocity; nothing else changes.
    pub fn set_velocity(&mut self, velocity: Vec2)
        ensures
            *final(self) == (Bullet { velocity, ..*old(self) }),
    {
        self.velocity = velocity;
    }
}

} // verus!
