//! The things that live on the playfield besides the ship.

use vstd::prelude::*;
use crate::geometry::Shape;

verus! {

/// An enemy: a body, a serial number, and the number of its bullets that are
/// still in flight.
#[derive(Clone, Copy, Debug, PartialEq, Eq, Structural)]
pub struct Enemy {
    pub id: usize,
    pub shape: Shape,
    pub bullet_count: usize,
}

/// A bullet fired by an enemy. `enemy_id` names the enemy that fired it; that
/// enemy may be gone by the time the bullet leaves the screen.
#[derive(Clone, Copy, Debug, PartialEq, Eq, Structural)]
pub struct EnemyBullet {
    pub enemy_id: usize,
    pub shape: Shape,
}

impl Enemy {
    /// An enemy is well formed when its body is and it has at most one
    /// bullet in flight.
    pub open spec fn wf(self) -> bool {
        self.shape.wf() && self.bullet_count <= 1
    }
}

/// Every enemy is well formed, and the serial numbers grow along the
/// sequence and stay below the next one to be handed out.
pub open spec fn enemies_wf(enemies: Seq<Enemy>, next_id: usize) -> bool {
    &&& forall|i: int| 0 <= i < enemies.len() ==> (#[trigger] enemies[i]).wf()
    &&& forall|i: int| 0 <= i < enemies.len() ==> (#[trigger] enemies[i]).id < next_id
    &&& forall|i: int, j: int|
        0 <= i < j < enemies.len() ==> (#[trigger] enemies[i]).id < (#[trigger] enemies[j]).id
}

/// Every shape in the sequence is well formed.
pub open spec fn shapes_wf(shapes: Seq<Shape>) -> bool {
    forall|i: int| 0 <= i < shapes.len() ==> (#[trigger] shapes[i]).wf()
}

/// Every bullet in the sequence has a well-formed shape.
pub open spec fn enemy_bullets_wf(bullets: Seq<EnemyBullet>) -> bool {
    forall|i: int| 0 <= i < bullets.len() ==> (#[trigger] bullets[i]).shape.wf()
}

} // verus!
