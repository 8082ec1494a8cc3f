//! What happens when things meet: enemies and bullets destroy each other,
//! enemies shoot at the ship, and the ship is lost to an enemy or a bullet.

use vstd::prelude::*;
use crate::entities::{Enemy, EnemyBullet};
use crate::geometry::{Color, Shape};
use crate::score::{lemma_award_after_hits, ScoreBoard};
use crate::units::{clamp_i32, clamp_u32, round_to_pixels, saturate, saturate_u32, whole_pixels};

verus! {

/// Size of a bullet of an enemy.
pub const ENEMY_BULLET_SIZE: u32 = 16_000;

/// An explosion to be shown: where a bullet hit, and the points the hit was
/// worth.
#[derive(Clone, Copy, Debug, PartialEq, Eq, Structural)]
pub struct Blast {
    pub x: i32,
    pub y: i32,
    pub points: u32,
}

impl Blast {
    /// How many particles the explosion throws: two for each point.
    pub fn particles(&self) -> (n: u32)
        ensures
            n == clamp_u32(2 * self.points),
    {
        saturate_u32(2 * (self.points as u64))
    }
}

/// The points an enemy is worth: its size in whole pixels.
pub open spec fn points(enemy: Enemy) -> int {
    whole_pixels(enemy.shape.size)
}

/// The bullet's sprite overlaps the enemy's.
pub open spec fn strikes(bullet: Shape, enemy: Enemy) -> bool {
    bullet.spec_collides_with(enemy.shape)
}

/// The explosion where `bullet` hits `enemy`.
pub open spec fn blast(bullet: Shape, enemy: Enemy) -> Blast {
    Blast { x: bullet.x, y: bullet.y, points: points(enemy) as u32 }
}

/// The explosions of one enemy against the first `n` bullets, in the order
/// of the bullets.
pub open spec fn row_blasts(enemy: Enemy, bullets: Seq<Shape>, n: int) -> Seq<Blast>
    decreases n,
{
    if n <= 0 {
        Seq::empty()
    } else {
        let earlier = row_blasts(enemy, bullets, n - 1);
        if strikes(bullets[n - 1], enemy) {
            earlier.push(blast(bullets[n - 1], enemy))
        } else {
            earlier
        }
    }
}

/// The explosions of the first `m` enemies against all bullets: enemy by
/// enemy, and for each enemy bullet by bullet.
pub open spec fn all_blasts(enemies: Seq<Enemy>, bullets: Seq<Shape>, m: int) -> Seq<Blast>
    decreases m,
{
    if m <= 0 {
        Seq::empty()
    } else {
        all_blasts(enemies, bullets, m - 1) + row_blasts(
            enemies[m - 1],
            bullets,
            bullets.len() as int,
        )
    }
}

/// The points of all the explosions together.
pub open spec fn sum_points(blasts: Seq<Blast>) -> int
    decreases blasts.len(),
{
    if blasts.len() == 0 {
        0
    } else {
        sum_points(blasts.drop_last()) + blasts.last().points
    }
}

/// Some bullet among the first `n` strikes the enemy.
pub open spec fn struck(enemy: Enemy, bullets: Seq<Shape>, n: int) -> bool {
    exists|j: int| 0 <= j < n && j < bullets.len() && strikes(#[trigger] bullets[j], enemy)
}

/// The bullet strikes some enemy among the first `m`.
pub open spec fn spent(bullet: Shape, enemies: Seq<Enemy>, m: int) -> bool {
    exists|i: int| 0 <= i < m && i < enemies.len() && strikes(bullet, #[trigger] enemies[i])
}

/// The shape, marked if `hit`.
pub open spec fn marked_if(s: Shape, hit: bool) -> Shape {
    if hit {
        s.marked()
    } else {
        s
    }
}

/// The ship's centre is level with the enemy: it lies between the left and
/// the right edge of the enemy's sprite, edges included.
pub open spec fn aligned(ship: Shape, enemy: Enemy) -> bool {
    2 * enemy.shape.x - enemy.shape.w <= 2 * ship.x <= 2 * enemy.shape.x + enemy.shape.w
}

/// The enemy shoots: it is level with the ship and has no bullet in flight.
pub open spec fn fires(ship: Shape, enemy: Enemy) -> bool {
    aligned(ship, enemy) && enemy.bullet_count < 1
}

/// The bullet an enemy shoots: it leaves from the middle of the enemy's
/// lower edge, three times as fast as the enemy.
pub open spec fn enemy_shot(enemy: Enemy) -> EnemyBullet {
    EnemyBullet {
        enemy_id: enemy.id,
        shape: Shape {
            x: enemy.shape.x,
            y: clamp_i32(enemy.shape.y + enemy.shape.size / 2) as i32,
            w: ENEMY_BULLET_SIZE,
            h: ENEMY_BULLET_SIZE,
            speed: clamp_u32(enemy.shape.speed * 3) as u32,
            color: Color::Red,
            size: ENEMY_BULLET_SIZE,
            collided: false,
        },
    }
}

/// The enemy after the shooting phase.
pub open spec fn after_firing(ship: Shape, enemy: Enemy) -> Enemy {
    if fires(ship, enemy) {
        Enemy { bullet_count: (enemy.bullet_count + 1) as usize, ..enemy }
    } else {
        enemy
    }
}

/// The bullets shot by the first `n` enemies, in the order of the enemies.
pub open spec fn volley(ship: Shape, enemies: Seq<Enemy>, n: int) -> Seq<EnemyBullet>
    decreases n,
{
    if n <= 0 {
        Seq::empty()
    } else {
        let earlier = volley(ship, enemies, n - 1);
        if fires(ship, enemies[n - 1]) {
            earlier.push(enemy_shot(enemies[n - 1]))
        } else {
            earlier
        }
    }
}

/// Some enemy touches the ship, the enemy taken as a square and the ship as
/// a disc.
pub open spec fn rammed(ship: Shape, enemies: Seq<Enemy>) -> bool {
    exists|i: int|
        0 <= i < enemies.len() && (#[trigger] enemies[i]).shape.spec_collides_with_circle(ship)
}

/// The sprite of some enemy bullet overlaps the ship's.
pub open spec fn shot_down(ship: Shape, bullets: Seq<EnemyBullet>) -> bool {
    exists|i: int|
        0 <= i < bullets.len() && (#[trigger] bullets[i]).shape.spec_collides_with(ship)
}

/// Whether an enemy has run into the ship.
pub fn ship_hit_by_enemy(enemies: &Vec<Enemy>, ship: &Shape) -> (hit: bool)
    ensures
        hit == rammed(*ship, enemies@),
{
    let mut i: usize = 0;
    while i < enemies.len()
        invariant
            0 <= i <= enemies@.len(),
            forall|k: int|
                0 <= k < i ==> !(#[trigger] enemies@[k]).shape.spec_collides_with_circle(*ship),
        decreases enemies@.len() - i,
    {
        if enemies[i].shape.collides_with_circle(ship) {
            return true;
        }
        i += 1;
    }
    false
}

/// Whether a bullet of an enemy has reached the ship.
pub fn ship_hit_by_bullet(bullets: &Vec<EnemyBullet>, ship: &Shape) -> (hit: bool)
    ensures
        hit == shot_down(*ship, bullets@),
{
    let mut i: usize = 0;
    while i < bullets.len()
        invariant
            0 <= i <= bullets@.len(),
            forall|k: int| 0 <= k < i ==> !(#[trigger] bullets@[k]).shape.spec_collides_with(*ship),
        decreases bullets@.len() - i,
    {
        if bullets[i].shape.collides_with(ship) {
            return true;
        }
        i += 1;
    }
    false
}

/// The sum of no explosions is zero, and one more explosion adds its points.
pub proof fn lemma_sum_points_push(blasts: Seq<Blast>, b: Blast)
    ensures
        sum_points(blasts.push(b)) == sum_points(blasts) + b.points,
        sum_points(blasts) >= 0,
    decreases blasts.len(),
{
    assert(blasts.push(b).drop_last() =~= blasts);
    if blasts.len() > 0 {
        lemma_sum_points_push(blasts.drop_last(), blasts.last());
        assert(blasts.drop_last().push(blasts.last()) =~= blasts);
    }
}

/// Tests every enemy against every bullet of the ship. Each pair that
/// overlaps marks both for removal, adds the enemy's points to the score and
/// leaves an explosion where the bullet is; the explosions are returned in
/// the order in which the pairs were met. Nothing moves and nothing is
/// removed.
pub fn resolve_hits(enemies: &mut Vec<Enemy>, bullets: &mut Vec<Shape>, board: &mut ScoreBoard) -> (blasts:
    Vec<Blast>)
    ensures
        blasts@ == all_blasts(old(enemies)@, old(bullets)@, old(enemies)@.len() as int),
        *final(board) == old(board).after_hits(sum_points(blasts@), blasts@.len() as int),
        final(enemies)@.len() == old(enemies)@.len(),
        forall|i: int|
            0 <= i < old(enemies)@.len() ==> #[trigger] final(enemies)@[i] == (Enemy {
                shape: marked_if(
                    old(enemies)@[i].shape,
                    struck(old(enemies)@[i], old(bullets)@, old(bullets)@.len() as int),
                ),
                ..old(enemies)@[i]
            }),
        final(bullets)@.len() == old(bullets)@.len(),
        forall|j: int|
            0 <= j < old(bullets)@.len() ==> #[trigger] final(bullets)@[j] == marked_if(
                old(bullets)@[j],
                spent(old(bullets)@[j], old(enemies)@, old(enemies)@.len() as int),
            ),
{
    let mut blasts: Vec<Blast> = Vec::new();
    let ghost enemies0 = enemies@;
    let ghost bullets0 = bullets@;
    let ghost board0 = *board;
    let mut i: usize = 0;
    while i < enemies.len()
        invariant
            0 <= i <= enemies@.len(),
            enemies@.len() == enemies0.len(),
            bullets@.len() == bullets0.len(),
            blasts@ == all_blasts(enemies0, bullets0, i as int),
            *board == board0.after_hits(sum_points(blasts@), blasts@.len() as int),
            forall|k: int|
                0 <= k < i ==> #[trigger] enemies@[k] == (Enemy {
                    shape: marked_if(
                        enemies0[k].shape,
                        struck(enemies0[k], bullets0, bullets0.len() as int),
                    ),
                    ..enemies0[k]
                }),
            forall|k: int| i <= k < enemies@.len() ==> #[trigger] enemies@[k] == enemies0[k],
            forall|k: int|
                0 <= k < bullets@.len() ==> #[trigger] bullets@[k] == marked_if(
                    bullets0[k],
                    spent(bullets0[k], enemies0, i as int),
                ),
        decreases enemies@.len() - i,
    {
        let mut enemy: Enemy = enemies[i];
        let ghost enemy0 = enemies0[i as int];
        let worth: u32 = round_to_pixels(enemy.shape.size);
        let mut j: usize = 0;
        while j < bullets.len()
            invariant
                0 <= j <= bullets@.len(),
                0 <= i < enemies0.len(),
                enemy0 == enemies0[i as int],
                bullets@.len() == bullets0.len(),
                worth == points(enemy0),
                enemy == (Enemy {
                    shape: marked_if(enemy0.shape, struck(enemy0, bullets0, j as int)),
                    ..enemy0
                }),
                blasts@ == all_blasts(enemies0, bullets0, i as int) + row_blasts(
                    enemy0,
                    bullets0,
                    j as int,
                ),
                *board == board0.after_hits(sum_points(blasts@), blasts@.len() as int),
                forall|k: int|
                    0 <= k < j ==> #[trigger] bullets@[k] == marked_if(
                        bullets0[k],
                        spent(bullets0[k], enemies0, i + 1),
                    ),
                forall|k: int|
                    j <= k < bullets@.len() ==> #[trigger] bullets@[k] == marked_if(
                        bullets0[k],
                        spent(bullets0[k], enemies0, i as int),
                    ),
            decreases bullets@.len() - j,
        {
            let mut bullet: Shape = bullets[j];
            let ghost bullet0 = bullets0[j as int];
            let hit: bool = bullet.collides_with(&enemy.shape);
            assert(hit == strikes(bullet0, enemy0));
            proof {
                if hit {
                    assert(strikes(bullets0[j as int], enemy0));
                    assert(struck(enemy0, bullets0, j + 1));
                    assert(strikes(bullet0, enemies0[i as int]));
                    assert(spent(bullet0, enemies0, i + 1));
                } else {
                    if struck(enemy0, bullets0, j + 1) {
                        let w = choose|w: int|
                            0 <= w < j + 1 && w < bullets0.len() && strikes(
                                #[trigger] bullets0[w],
                                enemy0,
                            );
                        assert(w < j);
                        assert(struck(enemy0, bullets0, j as int));
                    }
                    if spent(bullet0, enemies0, i + 1) {
                        let w = choose|w: int|
                            0 <= w < i + 1 && w < enemies0.len() && strikes(
                                bullet0,
                                #[trigger] enemies0[w],
                            );
                        assert(w < i);
                        assert(spent(bullet0, enemies0, i as int));
                    }
                }
                if struck(enemy0, bullets0, j as int) {
                    let w = choose|w: int|
                        0 <= w < j && w < bullets0.len() && strikes(#[trigger] bullets0[w], enemy0);
                    assert(struck(enemy0, bullets0, j + 1));
                }
                if spent(bullet0, enemies0, i as int) {
                    let w = choose|w: int|
                        0 <= w < i && w < enemies0.len() && strikes(
                            bullet0,
                            #[trigger] enemies0[w],
                        );
                    assert(spent(bullet0, enemies0, i + 1));
                }
            }
            if hit {
                bullet.mark_collided();
                bullets.set(j, bullet);
                enemy.shape.mark_collided();
                let b: Blast = Blast { x: bullet.x, y: bullet.y, points: worth };
                proof {
                    lemma_sum_points_push(blasts@, b);
                    lemma_award_after_hits(
                        board0,
                        sum_points(blasts@),
                        blasts@.len() as int,
                        worth,
                    );
                    assert((all_blasts(enemies0, bullets0, i as int) + row_blasts(
                        enemy0,
                        bullets0,
                        j as int,
                    )).push(b) =~= all_blasts(enemies0, bullets0, i as int) + row_blasts(
                        enemy0,
                        bullets0,
                        j as int,
                    ).push(b));
                }
                board.add_points(worth);
                blasts.push(b);
            }
            j += 1;
        }
        enemies.set(i, enemy);
        i += 1;
    }
    blasts
}

/// Lets every enemy that is level with the ship and has no bullet in flight
/// shoot one. The new bullets are added at the end of `enemy_bullets`, in
/// the order of the enemies.
pub fn enemies_fire(enemies: &mut Vec<Enemy>, ship: &Shape, enemy_bullets: &mut Vec<EnemyBullet>)
    ensures
        final(enemies)@.len() == old(enemies)@.len(),
        forall|i: int|
            0 <= i < old(enemies)@.len() ==> #[trigger] final(enemies)@[i] == after_firing(
                *ship,
                old(enemies)@[i],
            ),
        final(enemy_bullets)@ == old(enemy_bullets)@ + volley(
            *ship,
            old(enemies)@,
            old(enemies)@.len() as int,
        ),
{
    let ghost enemies0 = enemies@;
    let ghost shots0 = enemy_bullets@;
    let mut i: usize = 0;
    while i < enemies.len()
        invariant
            0 <= i <= enemies@.len(),
            enemies@.len() == enemies0.len(),
            forall|k: int|
                0 <= k < i ==> #[trigger] enemies@[k] == after_firing(*ship, enemies0[k]),
            forall|k: int| i <= k < enemies@.len() ==> #[trigger] enemies@[k] == enemies0[k],
            enemy_bullets@ == shots0 + volley(*ship, enemies0, i as int),
        decreases enemies@.len() - i,
    {
        let mut enemy: Enemy = enemies[i];
        let left: i64 = 2 * (enemy.shape.x as i64) - enemy.shape.w as i64;
        let right: i64 = 2 * (enemy.shape.x as i64) + enemy.shape.w as i64;
        let at: i64 = 2 * (ship.x as i64);
        if left <= at && at <= right && enemy.bullet_count < 1 {
            let shot: EnemyBullet = EnemyBullet {
                enemy_id: enemy.id,
                shape: Shape {
                    x: enemy.shape.x,
                    y: saturate(enemy.shape.y as i64 + (enemy.shape.size / 2) as i64),
                    w: ENEMY_BULLET_SIZE,
                    h: ENEMY_BULLET_SIZE,
                    speed: saturate_u32(enemy.shape.speed as u64 * 3),
                    color: Color::Red,
                    size: ENEMY_BULLET_SIZE,
                    collided: false,
                },
            };
            assert(shot == enemy_shot(enemies0[i as int]));
            proof {
                assert((shots0 + volley(*ship, enemies0, i as int)).push(shot) =~= shots0 + volley(
                    *ship,
                    enemies0,
                    i as int,
                ).push(shot));
            }
            enemy_bullets.push(shot);
            enemy.bullet_count = enemy.bullet_count + 1;
            enemies.set(i, enemy);
        }
        i += 1;
    }
}

} // verus!
