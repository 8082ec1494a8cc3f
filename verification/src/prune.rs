//! Dropping what has left the screen or has been hit.

use vstd::prelude::*;
use crate::entities::{enemies_wf, Enemy, EnemyBullet};
use crate::geometry::Shape;

verus! {

/// The bullet has passed the bottom edge by its own size.
pub open spec fn expired(bullet: EnemyBullet, screen_height: i32) -> bool {
    bullet.shape.y >= screen_height + bullet.shape.size
}

/// The enemy has passed the bottom edge by its own size.
pub open spec fn escaped(enemy: Enemy, screen_height: i32) -> bool {
    enemy.shape.y >= screen_height + enemy.shape.size
}

/// The bullet has passed the top edge by half its size.
pub open spec fn overshot(bullet: Shape) -> bool {
    2 * bullet.y < -(bullet.size as int)
}

/// The enemy bullets that stay: those still on the screen.
pub open spec fn live_enemy_bullet(screen_height: i32) -> spec_fn(EnemyBullet) -> bool {
    |b: EnemyBullet| !expired(b, screen_height)
}

/// The enemies that stay: those still on the screen that have not been hit.
pub open spec fn live_enemy(screen_height: i32) -> spec_fn(Enemy) -> bool {
    |e: Enemy| !escaped(e, screen_height) && !e.shape.collided
}

/// The bullets of the ship that stay: those still on the screen that have
/// not hit anything.
pub open spec fn live_bullet() -> spec_fn(Shape) -> bool {
    |b: Shape| !overshot(b) && !b.collided
}

/// The place of the first enemy at or after `from` with the serial number
/// `id`, or the length of the sequence if there is none.
pub open spec fn owner_from(enemies: Seq<Enemy>, id: usize, from: int) -> int
    decreases enemies.len() - from,
{
    if from >= enemies.len() {
        enemies.len() as int
    } else if enemies[from].id == id {
        from
    } else {
        owner_from(enemies, id, from + 1)
    }
}

/// The enemy with one bullet fewer in flight; an enemy without bullets stays
/// as it is.
pub open spec fn relieved(enemy: Enemy) -> Enemy {
    Enemy {
        bullet_count: if enemy.bullet_count > 0 {
            (enemy.bullet_count - 1) as usize
        } else {
            0
        },
        ..enemy
    }
}

/// The enemies after a bullet of the enemy `id` is gone: the first enemy
/// with that serial number gets its bullet back. If that enemy is gone too,
/// nothing changes.
pub open spec fn released(enemies: Seq<Enemy>, id: usize) -> Seq<Enemy> {
    let at = owner_from(enemies, id, 0);
    if at < enemies.len() {
        enemies.update(at, relieved(enemies[at]))
    } else {
        enemies
    }
}

/// The enemies after the expired ones among the first `n` bullets have been
/// given back to their owners, bullet by bullet.
pub open spec fn settled(
    enemies: Seq<Enemy>,
    bullets: Seq<EnemyBullet>,
    screen_height: i32,
    n: int,
) -> Seq<Enemy>
    decreases n,
{
    if n <= 0 {
        enemies
    } else {
        let earlier = settled(enemies, bullets, screen_height, n - 1);
        if expired(bullets[n - 1], screen_height) {
            released(earlier, bullets[n - 1].enemy_id)
        } else {
            earlier
        }
    }
}

/// Filtering one element more either appends that element or changes
/// nothing.
pub proof fn lemma_filter_step<A>(s: Seq<A>, i: int, keep: spec_fn(A) -> bool)
    requires
        0 <= i < s.len(),
    ensures
        s.take(i + 1).filter(keep) == if keep(s[i]) {
            s.take(i).filter(keep).push(s[i])
        } else {
            s.take(i).filter(keep)
        },
{
    reveal(Seq::filter);
    assert(s.take(i + 1).drop_last() =~= s.take(i));
    assert(s.take(i + 1).last() == s[i]);
}

/// Filtering a sequence in which everything stays changes nothing.
pub proof fn lemma_filter_keeps_all<A>(s: Seq<A>, keep: spec_fn(A) -> bool)
    requires
        forall|i: int| 0 <= i < s.len() ==> keep(#[trigger] s[i]),
    ensures
        s.filter(keep) == s,
    decreases s.len(),
{
    reveal(Seq::filter);
    if s.len() > 0 {
        lemma_filter_keeps_all(s.drop_last(), keep);
        assert(s.drop_last().push(s.last()) =~= s);
    }
}

/// With no bullet expired, no enemy gets a bullet back.
pub proof fn lemma_settled_without_expiry(
    enemies: Seq<Enemy>,
    bullets: Seq<EnemyBullet>,
    screen_height: i32,
    n: int,
)
    requires
        n <= bullets.len(),
        forall|i: int| 0 <= i < n ==> !expired(#[trigger] bullets[i], screen_height),
    ensures
        settled(enemies, bullets, screen_height, n) == enemies,
    decreases n,
{
    if n > 0 {
        lemma_settled_without_expiry(enemies, bullets, screen_height, n - 1);
    }
}

/// Pruning when nothing has left the screen and nothing has been hit is a
/// no-op on every collection.
pub proof fn lemma_prune_nothing(
    enemies: Seq<Enemy>,
    bullets: Seq<Shape>,
    enemy_bullets: Seq<EnemyBullet>,
    screen_height: i32,
)
    requires
        forall|i: int|
            0 <= i < enemies.len() ==> !escaped(#[trigger] enemies[i], screen_height)
                && !enemies[i].shape.collided,
        forall|i: int|
            0 <= i < bullets.len() ==> !overshot(#[trigger] bullets[i]) && !bullets[i].collided,
        forall|i: int|
            0 <= i < enemy_bullets.len() ==> !expired(#[trigger] enemy_bullets[i], screen_height),
    ensures
        enemy_bullets.filter(live_enemy_bullet(screen_height)) == enemy_bullets,
        settled(enemies, enemy_bullets, screen_height, enemy_bullets.len() as int).filter(
            live_enemy(screen_height),
        ) == enemies,
        bullets.filter(live_bullet()) == bullets,
{
    lemma_settled_without_expiry(
        enemies,
        enemy_bullets,
        screen_height,
        enemy_bullets.len() as int,
    );
    lemma_filter_keeps_all(enemy_bullets, live_enemy_bullet(screen_height));
    lemma_filter_keeps_all(enemies, live_enemy(screen_height));
    lemma_filter_keeps_all(bullets, live_bullet());
}

/// Giving a bullet back keeps every enemy in its place, with its serial
/// number and its body, and leaves no enemy with more bullets than before.
pub proof fn lemma_released(enemies: Seq<Enemy>, id: usize)
    ensures
        released(enemies, id).len() == enemies.len(),
        forall|i: int|
            0 <= i < enemies.len() ==> {
                &&& (#[trigger] released(enemies, id)[i]).id == enemies[i].id
                &&& released(enemies, id)[i].shape == enemies[i].shape
                &&& released(enemies, id)[i].bullet_count <= enemies[i].bullet_count
            },
{
    lemma_owner_from(enemies, id, 0);
}

proof fn lemma_owner_from(enemies: Seq<Enemy>, id: usize, from: int)
    requires
        0 <= from,
    ensures
        from <= owner_from(enemies, id, from) || owner_from(enemies, id, from) == enemies.len(),
        0 <= owner_from(enemies, id, from) <= enemies.len() || from > enemies.len(),
    decreases enemies.len() - from,
{
    if from < enemies.len() && enemies[from].id != id {
        lemma_owner_from(enemies, id, from + 1);
    }
}

/// Settling keeps every enemy in its place, with its serial number and its
/// body, and leaves no enemy with more bullets than before.
pub proof fn lemma_settled(
    enemies: Seq<Enemy>,
    bullets: Seq<EnemyBullet>,
    screen_height: i32,
    n: int,
)
    ensures
        settled(enemies, bullets, screen_height, n).len() == enemies.len(),
        forall|i: int|
            0 <= i < enemies.len() ==> {
                &&& (#[trigger] settled(enemies, bullets, screen_height, n)[i]).id
                    == enemies[i].id
                &&& settled(enemies, bullets, screen_height, n)[i].shape == enemies[i].shape
                &&& settled(enemies, bullets, screen_height, n)[i].bullet_count
                    <= enemies[i].bullet_count
            },
    decreases n,
{
    if n > 0 {
        lemma_settled(enemies, bullets, screen_height, n - 1);
        let earlier = settled(enemies, bullets, screen_height, n - 1);
        lemma_released(earlier, bullets[n - 1].enemy_id);
    }
}

/// Dropping enemies leaves the rest well formed.
pub proof fn lemma_filter_enemies_wf(enemies: Seq<Enemy>, keep: spec_fn(Enemy) -> bool, next_id: usize)
    requires
        enemies_wf(enemies, next_id),
    ensures
        enemies_wf(enemies.filter(keep), next_id),
        forall|i: int|
            0 <= i < enemies.filter(keep).len() ==> enemies.contains(
                #[trigger] enemies.filter(keep)[i],
            ),
    decreases enemies.len(),
{
    reveal(Seq::filter);
    if enemies.len() > 0 {
        let front = enemies.drop_last();
        assert(enemies_wf(front, next_id));
        lemma_filter_enemies_wf(front, keep, next_id);
        let kept = front.filter(keep);
        assert forall|i: int| 0 <= i < kept.len() implies (#[trigger] kept[i]).id
            < enemies.last().id && enemies.contains(kept[i]) by {
            assert(front.contains(kept[i]));
            let k = choose|k: int| 0 <= k < front.len() && front[k] == kept[i];
            assert(enemies[k] == kept[i]);
        }
        if keep(enemies.last()) {
            assert(enemies[enemies.len() - 1] == enemies.last());
        }
    }
}

/// Gives a bullet back to the enemy that fired it, if it is still there.
pub fn release(enemies: &mut Vec<Enemy>, id: usize)
    ensures
        final(enemies)@ == released(old(enemies)@, id),
{
    let mut k: usize = 0;
    while k < enemies.len()
        invariant
            0 <= k <= enemies@.len(),
            enemies@ == old(enemies)@,
            owner_from(enemies@, id, 0) == owner_from(enemies@, id, k as int),
        decreases enemies@.len() - k,
    {
        let mut enemy: Enemy = enemies[k];
        if enemy.id == id {
            if enemy.bullet_count > 0 {
                enemy.bullet_count = enemy.bullet_count - 1;
            }
            enemies.set(k, enemy);
            return ;
        }
        k += 1;
    }
}

/// Drops the enemy bullets that have left the screen through the bottom,
/// and gives each of them back to the enemy that fired it.
pub fn prune_enemy_bullets(
    enemy_bullets: &mut Vec<EnemyBullet>,
    enemies: &mut Vec<Enemy>,
    screen_height: i32,
)
    ensures
        final(enemy_bullets)@ == old(enemy_bullets)@.filter(live_enemy_bullet(screen_height)),
        final(enemies)@ == settled(
            old(enemies)@,
            old(enemy_bullets)@,
            screen_height,
            old(enemy_bullets)@.len() as int,
        ),
{
    let ghost bullets0 = enemy_bullets@;
    let ghost enemies0 = enemies@;
    let mut kept: Vec<EnemyBullet> = Vec::new();
    let mut i: usize = 0;
    proof {
        reveal(Seq::filter);
        assert(bullets0.take(0) =~= Seq::<EnemyBullet>::empty());
    }
    while i < enemy_bullets.len()
        invariant
            0 <= i <= enemy_bullets@.len(),
            enemy_bullets@ == bullets0,
            kept@ == bullets0.take(i as int).filter(live_enemy_bullet(screen_height)),
            enemies@ == settled(enemies0, bullets0, screen_height, i as int),
        decreases enemy_bullets@.len() - i,
    {
        let bullet: EnemyBullet = enemy_bullets[i];
        proof {
            lemma_filter_step(bullets0, i as int, live_enemy_bullet(screen_height));
        }
        if (bullet.shape.y as i64) < screen_height as i64 + bullet.shape.size as i64 {
            kept.push(bullet);
        } else {
            release(enemies, bullet.enemy_id);
        }
        i += 1;
    }
    proof {
        assert(bullets0.take(i as int) =~= bullets0);
    }
    *enemy_bullets = kept;
}

/// Drops the enemies that have left the screen through the bottom or have
/// been hit.
pub fn prune_enemies(enemies: &mut Vec<Enemy>, screen_height: i32)
    ensures
        final(enemies)@ == old(enemies)@.filter(live_enemy(screen_height)),
{
    let ghost enemies0 = enemies@;
    let mut kept: Vec<Enemy> = Vec::new();
    let mut i: usize = 0;
    proof {
        reveal(Seq::filter);
        assert(enemies0.take(0) =~= Seq::<Enemy>::empty());
    }
    while i < enemies.len()
        invariant
            0 <= i <= enemies@.len(),
            enemies@ == enemies0,
            kept@ == enemies0.take(i as int).filter(live_enemy(screen_height)),
        decreases enemies@.len() - i,
    {
        let enemy: Enemy = enemies[i];
        proof {
            lemma_filter_step(enemies0, i as int, live_enemy(screen_height));
        }
        if (enemy.shape.y as i64) < screen_height as i64 + enemy.shape.size as i64
            && !enemy.shape.collided {
            kept.push(enemy);
        }
        i += 1;
    }
    proof {
        assert(enemies0.take(i as int) =~= enemies0);
    }
    *enemies = kept;
}

/// Drops the bullets of the ship that have left the screen through the top
/// or have hit something.
pub fn prune_bullets(bullets: &mut Vec<Shape>)
    ensures
        final(bullets)@ == old(bullets)@.filter(live_bullet()),
{
    let ghost bullets0 = bullets@;
    let mut kept: Vec<Shape> = Vec::new();
    let mut i: usize = 0;
    proof {
        reveal(Seq::filter);
        assert(bullets0.take(0) =~= Seq::<Shape>::empty());
    }
    while i < bullets.len()
        invariant
            0 <= i <= bullets@.len(),
            bullets@ == bullets0,
            kept@ == bullets0.take(i as int).filter(live_bullet()),
        decreases bullets@.len() - i,
    {
        let bullet: Shape = bullets[i];
        proof {
            lemma_filter_step(bullets0, i as int, live_bullet());
        }
        if 2 * (bullet.y as i64) >= -(bullet.size as i64) && !bullet.collided {
            kept.push(bullet);
        }
        i += 1;
    }
    proof {
        assert(bullets0.take(i as int) =~= bullets0);
    }
    *bullets = kept;
}

} // verus!
