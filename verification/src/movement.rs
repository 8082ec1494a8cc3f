//! Moving things: the ship under the player's hand, and everything else
//! under its own speed.

use vstd::prelude::*;
use crate::entities::{Enemy, EnemyBullet};
use crate::geometry::{Color, Shape};
use crate::units::{clamp_i32, clamp_u32, distance, saturate, saturate_u32, travel};

verus! {

/// Speed of the ship, in length units per second.
pub const MOVEMENT_SPEED: u32 = 400_000;

/// Radius of the ship.
pub const BALL_RADIUS: i32 = 16_000;

/// How many bullets the ship fires per second at most.
pub const MAX_BULLETS_PER_SECOND: u64 = 4;

/// The least time between two bullets of the ship, in microseconds.
pub const BULLET_INTERVAL: u64 = 250_000;

/// Size of a bullet of the ship.
pub const BULLET_SIZE: u32 = 32_000;

/// How far above the ship's centre its bullets start.
pub const BULLET_OFFSET: i32 = 24_000;

/// How far the ship moves along one axis in one frame. The sign of `dir`
/// gives the direction; the ship covers what its speed allows in the time,
/// but never more than the magnitude of `dir`.
pub open spec fn stride(dir: i32, micros: u32) -> int {
    let reach = travel(MOVEMENT_SPEED, micros);
    if dir < 0 {
        if reach < -dir {
            -reach
        } else {
            dir as int
        }
    } else {
        if reach < dir {
            reach
        } else {
            dir as int
        }
    }
}

/// A coordinate of the ship's centre brought back onto a screen of the given
/// extent, so that the whole ship is on it. On a screen too small for the
/// ship the near edge wins.
pub open spec fn clamp_axis(v: int, extent: i32) -> int {
    let capped = if v < extent - BALL_RADIUS {
        v
    } else {
        extent - BALL_RADIUS
    };
    if capped > BALL_RADIUS {
        capped
    } else {
        BALL_RADIUS as int
    }
}

/// The whole ship, taken as a disc of radius [`BALL_RADIUS`], is on a screen
/// of the given extents.
pub open spec fn on_screen(ship: Shape, screen_width: i32, screen_height: i32) -> bool {
    &&& BALL_RADIUS <= ship.x <= screen_width - BALL_RADIUS
    &&& BALL_RADIUS <= ship.y <= screen_height - BALL_RADIUS
}

/// Where the ship ends up along one axis after one frame.
pub open spec fn steered(pos: i32, dir: i32, micros: u32, extent: i32) -> int {
    clamp_axis(pos + stride(dir, micros), extent)
}

/// The direction for one axis from two keys: the first key wins if both are
/// held.
pub open spec fn key_direction(back: bool, forth: bool) -> int {
    if back {
        -(MOVEMENT_SPEED as int)
    } else if forth {
        MOVEMENT_SPEED as int
    } else {
        0
    }
}

/// The bullet the ship fires: it starts above the ship and is twice as fast.
pub open spec fn player_bullet(ship: Shape) -> Shape {
    Shape {
        x: ship.x,
        y: clamp_i32(ship.y - BULLET_OFFSET) as i32,
        w: BULLET_SIZE,
        h: BULLET_SIZE,
        speed: clamp_u32(ship.speed * 2) as u32,
        color: Color::Gold,
        size: BULLET_SIZE,
        collided: false,
    }
}

/// Whether enough time has passed since the last bullet.
pub open spec fn may_fire(now: u64, last: u64) -> bool {
    now - last > BULLET_INTERVAL
}

/// The shape after falling for `micros` microseconds.
pub open spec fn descended(s: Shape, micros: u32) -> Shape {
    Shape { y: clamp_i32(s.y + travel(s.speed, micros)) as i32, ..s }
}

/// The shape after rising for `micros` microseconds.
pub open spec fn ascended(s: Shape, micros: u32) -> Shape {
    Shape { y: clamp_i32(s.y - travel(s.speed, micros)) as i32, ..s }
}

/// However hard the player pushes and however long the frame took, the
/// ship's centre ends up at least a radius from the near edges, and, on a
/// screen that has room for the ship, at least a radius from the far edges.
pub proof fn lemma_ship_stays_on_screen(pos: i32, dir: i32, micros: u32, extent: i32)
    ensures
        BALL_RADIUS <= steered(pos, dir, micros, extent),
        extent >= 2 * BALL_RADIUS ==> steered(pos, dir, micros, extent) <= extent - BALL_RADIUS,
        i32::MIN <= steered(pos, dir, micros, extent) <= i32::MAX,
{
}

/// Executable form of [`key_direction`].
pub fn keyboard_direction(back: bool, forth: bool) -> (dir: i32)
    ensures
        dir == key_direction(back, forth),
{
    if back {
        -(MOVEMENT_SPEED as i32)
    } else if forth {
        MOVEMENT_SPEED as i32
    } else {
        0
    }
}

fn steer(pos: i32, dir: i32, micros: u32, extent: i32) -> (r: i32)
    ensures
        r == steered(pos, dir, micros, extent),
{
    let reach: i64 = distance(MOVEMENT_SPEED, micros) as i64;
    let step: i64 = if dir < 0 {
        if reach < -(dir as i64) {
            -reach
        } else {
            dir as i64
        }
    } else {
        if reach < dir as i64 {
            reach
        } else {
            dir as i64
        }
    };
    let moved: i64 = pos as i64 + step;
    let far: i64 = extent as i64 - BALL_RADIUS as i64;
    let capped: i64 = if moved < far { moved } else { far };
    if capped > BALL_RADIUS as i64 {
        capped as i32
    } else {
        BALL_RADIUS
    }
}

/// Moves the ship for one frame and keeps it on the screen.
pub fn move_ship(
    ship: &mut Shape,
    dir_x: i32,
    dir_y: i32,
    micros: u32,
    screen_width: i32,
    screen_height: i32,
)
    ensures
        final(ship).x == steered(old(ship).x, dir_x, micros, screen_width),
        final(ship).y == steered(old(ship).y, dir_y, micros, screen_height),
        *final(ship) == (Shape { x: final(ship).x, y: final(ship).y, ..*old(ship) }),
        BALL_RADIUS <= final(ship).x,
        BALL_RADIUS <= final(ship).y,
        screen_width >= 2 * BALL_RADIUS && screen_height >= 2 * BALL_RADIUS ==> on_screen(
            *final(ship),
            screen_width,
            screen_height,
        ),
{
    ship.x = steer(ship.x, dir_x, micros, screen_width);
    ship.y = steer(ship.y, dir_y, micros, screen_height);
}

/// Fires a bullet from the ship if the last one is long enough ago, and
/// notes the time if it does.
pub fn fire(bullets: &mut Vec<Shape>, ship: &Shape, now: u64, last_bullet_time: &mut u64) -> (fired:
    bool)
    ensures
        fired == may_fire(now, *old(last_bullet_time)),
        fired ==> final(bullets)@ == old(bullets)@.push(player_bullet(*ship)),
        fired ==> *final(last_bullet_time) == now,
        !fired ==> final(bullets)@ == old(bullets)@,
        !fired ==> *final(last_bullet_time) == *old(last_bullet_time),
{
    if now > *last_bullet_time && now - *last_bullet_time > BULLET_INTERVAL {
        *last_bullet_time = now;
        bullets.push(
            Shape {
                x: ship.x,
                y: saturate(ship.y as i64 - BULLET_OFFSET as i64),
                w: BULLET_SIZE,
                h: BULLET_SIZE,
                speed: saturate_u32(ship.speed as u64 * 2),
                color: Color::Gold,
                size: BULLET_SIZE,
                collided: false,
            },
        );
        true
    } else {
        false
    }
}

fn descend(s: Shape, micros: u32) -> (r: Shape)
    ensures
        r == descended(s, micros),
{
    let fall: i64 = distance(s.speed, micros) as i64;
    let mut r: Shape = s;
    r.y = saturate(s.y as i64 + fall);
    r
}

fn ascend(s: Shape, micros: u32) -> (r: Shape)
    ensures
        r == ascended(s, micros),
{
    let rise: i64 = distance(s.speed, micros) as i64;
    let mut r: Shape = s;
    r.y = saturate(s.y as i64 - rise);
    r
}

/// Lets every enemy fall for `micros` microseconds.
pub fn advance_enemies(enemies: &mut Vec<Enemy>, micros: u32)
    ensures
        final(enemies)@.len() == old(enemies)@.len(),
        forall|i: int|
            0 <= i < old(enemies)@.len() ==> #[trigger] final(enemies)@[i] == (Enemy {
                shape: descended(old(enemies)@[i].shape, micros),
                ..old(enemies)@[i]
            }),
{
    let mut i: usize = 0;
    while i < enemies.len()
        invariant
            0 <= i <= enemies@.len(),
            enemies@.len() == old(enemies)@.len(),
            forall|k: int|
                0 <= k < i ==> #[trigger] enemies@[k] == (Enemy {
                    shape: descended(old(enemies)@[k].shape, micros),
                    ..old(enemies)@[k]
                }),
            forall|k: int| i <= k < enemies@.len() ==> #[trigger] enemies@[k] == old(enemies)@[k],
        decreases enemies@.len() - i,
    {
        let mut e: Enemy = enemies[i];
        e.shape = descend(e.shape, micros);
        enemies.set(i, e);
        i += 1;
    }
}

/// Lets every bullet of the ship rise for `micros` microseconds.
pub fn advance_bullets(bullets: &mut Vec<Shape>, micros: u32)
    ensures
        final(bullets)@.len() == old(bullets)@.len(),
        forall|i: int|
            0 <= i < old(bullets)@.len() ==> #[trigger] final(bullets)@[i] == ascended(
                old(bullets)@[i],
                micros,
            ),
{
    let mut i: usize = 0;
    while i < bullets.len()
        invariant
            0 <= i <= bullets@.len(),
            bullets@.len() == old(bullets)@.len(),
            forall|k: int|
                0 <= k < i ==> #[trigger] bullets@[k] == ascended(old(bullets)@[k], micros),
            forall|k: int| i <= k < bullets@.len() ==> #[trigger] bullets@[k] == old(bullets)@[k],
        decreases bullets@.len() - i,
    {
        let s: Shape = ascend(bullets[i], micros);
        bullets.set(i, s);
        i += 1;
    }
}

/// Lets every bullet of an enemy fall for `micros` microseconds.
pub fn advance_enemy_bullets(bullets: &mut Vec<EnemyBullet>, micros: u32)
    ensures
        final(bullets)@.len() == old(bullets)@.len(),
        forall|i: int|
            0 <= i < old(bullets)@.len() ==> #[trigger] final(bullets)@[i] == (EnemyBullet {
                shape: descended(old(bullets)@[i].shape, micros),
                ..old(bullets)@[i]
            }),
{
    let mut i: usize = 0;
    while i < bullets.len()
        invariant
            0 <= i <= bullets@.len(),
            bullets@.len() == old(bullets)@.len(),
            forall|k: int|
                0 <= k < i ==> #[trigger] bullets@[k] == (EnemyBullet {
                    shape: descended(old(bullets)@[k].shape, micros),
                    ..old(bullets)@[k]
                }),
            forall|k: int| i <= k < bullets@.len() ==> #[trigger] bullets@[k] == old(bullets)@[k],
        decreases bullets@.len() - i,
    {
        let mut b: EnemyBullet = bullets[i];
        b.shape = descend(b.shape, micros);
        bullets.set(i, b);
        i += 1;
    }
}

} // verus!
