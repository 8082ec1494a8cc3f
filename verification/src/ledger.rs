//! Keeping count of the enemies' bullets.
//!
//! Every enemy carries the number of its bullets that are in flight. This
//! module proves that the number is right: in a world where it is right, a
//! frame leaves it right.

use vstd::prelude::*;
use crate::combat::{after_firing, enemy_shot, fires, sum_points, volley};
use crate::entities::{enemies_wf, Enemy, EnemyBullet};
use crate::geometry::Shape;
use crate::laws::{
    lemma_filter_preserves, lemma_frame_keeps_wf, lemma_sum_points_nonnegative, lemma_volley_wf,
};
use crate::score::lemma_scores_monotonic;
use crate::prune::{
    expired, lemma_filter_step, lemma_settled, live_enemy, live_enemy_bullet, owner_from,
    released, relieved, settled,
};
use crate::state::GameState;
use crate::world::{FrameInput, World};

verus! {

/// How many of the bullets were fired by the enemy `id`.
pub open spec fn owned(bullets: Seq<EnemyBullet>, id: usize) -> nat
    decreases bullets.len(),
{
    if bullets.len() == 0 {
        0
    } else {
        owned(bullets.drop_last(), id) + if bullets.last().enemy_id == id {
            1nat
        } else {
            0nat
        }
    }
}

/// How many of the first `n` bullets were fired by the enemy `id` and have
/// left the screen.
pub open spec fn owned_expired(bullets: Seq<EnemyBullet>, screen_height: i32, n: int, id: usize) -> nat
    decreases n,
{
    if n <= 0 {
        0
    } else {
        owned_expired(bullets, screen_height, n - 1, id) + if expired(bullets[n - 1], screen_height)
            && bullets[n - 1].enemy_id == id {
            1nat
        } else {
            0nat
        }
    }
}

/// The books are right: every enemy's count is the number of its bullets in
/// flight, and every bullet in flight carries a serial number that has been
/// handed out.
pub open spec fn balanced(enemies: Seq<Enemy>, bullets: Seq<EnemyBullet>, next_id: usize) -> bool {
    &&& forall|k: int| 0 <= k < bullets.len() ==> (#[trigger] bullets[k]).enemy_id < next_id
    &&& forall|i: int|
        0 <= i < enemies.len() ==> (#[trigger] enemies[i]).bullet_count == owned(
            bullets,
            enemies[i].id,
        )
}

/// The books of a world are right.
pub open spec fn world_balanced(w: World) -> bool {
    balanced(w.enemies, w.enemy_bullets, w.next_enemy_id)
}

proof fn lemma_owned_push(bullets: Seq<EnemyBullet>, b: EnemyBullet, id: usize)
    ensures
        owned(bullets.push(b), id) == owned(bullets, id) + if b.enemy_id == id {
            1nat
        } else {
            0nat
        },
{
    assert(bullets.push(b).drop_last() =~= bullets);
}

proof fn lemma_owned_add(a: Seq<EnemyBullet>, b: Seq<EnemyBullet>, id: usize)
    ensures
        owned(a + b, id) == owned(a, id) + owned(b, id),
    decreases b.len(),
{
    if b.len() == 0 {
        assert(a + b =~= a);
    } else {
        lemma_owned_add(a, b.drop_last(), id);
        assert((a + b).drop_last() =~= a + b.drop_last());
        assert((a + b).last() == b.last());
    }
}

proof fn lemma_owned_none(bullets: Seq<EnemyBullet>, id: usize)
    requires
        forall|k: int| 0 <= k < bullets.len() ==> (#[trigger] bullets[k]).enemy_id != id,
    ensures
        owned(bullets, id) == 0,
    decreases bullets.len(),
{
    if bullets.len() > 0 {
        let front = bullets.drop_last();
        assert forall|k: int| 0 <= k < front.len() implies (#[trigger] front[k]).enemy_id
            != id by {
            assert(front[k] == bullets[k]);
        }
        lemma_owned_none(front, id);
        assert(bullets.last() == bullets[bullets.len() - 1]);
    }
}

proof fn lemma_owned_same_ids(a: Seq<EnemyBullet>, b: Seq<EnemyBullet>, id: usize)
    requires
        a.len() == b.len(),
        forall|k: int| 0 <= k < a.len() ==> (#[trigger] a[k]).enemy_id == b[k].enemy_id,
    ensures
        owned(a, id) == owned(b, id),
    decreases a.len(),
{
    if a.len() > 0 {
        let fa = a.drop_last();
        let fb = b.drop_last();
        assert forall|k: int| 0 <= k < fa.len() implies (#[trigger] fa[k]).enemy_id
            == fb[k].enemy_id by {
            assert(fa[k] == a[k]);
            assert(fb[k] == b[k]);
        }
        lemma_owned_same_ids(fa, fb, id);
        assert(a.last() == a[a.len() - 1]);
        assert(b.last() == b[b.len() - 1]);
    }
}

/// Among enemies with distinct serial numbers, the bullets of a volley that
/// belong to one of them are one if it fired and none if it did not.
proof fn lemma_owned_volley(ship: Shape, enemies: Seq<Enemy>, n: int, i: int, next_id: usize)
    requires
        enemies_wf(enemies, next_id),
        0 <= n <= enemies.len(),
        0 <= i < enemies.len(),
    ensures
        owned(volley(ship, enemies, n), enemies[i].id) == if i < n && fires(ship, enemies[i]) {
            1nat
        } else {
            0nat
        },
        forall|k: int|
            0 <= k < volley(ship, enemies, n).len() ==> (#[trigger] volley(
                ship,
                enemies,
                n,
            )[k]).enemy_id < next_id,
    decreases n,
{
    if n > 0 {
        lemma_owned_volley(ship, enemies, n - 1, i, next_id);
        let earlier = volley(ship, enemies, n - 1);
        if fires(ship, enemies[n - 1]) {
            lemma_owned_push(earlier, enemy_shot(enemies[n - 1]), enemies[i].id);
            if i != n - 1 {
                if i < n - 1 {
                    assert(enemies[i].id < enemies[n - 1].id);
                } else {
                    assert(enemies[n - 1].id < enemies[i].id);
                }
            }
        }
    }
}

/// Among enemies with distinct serial numbers, the owner of a bullet is the
/// one enemy with the bullet's serial number, if there is one.
proof fn lemma_owner_unique(enemies: Seq<Enemy>, id: usize, from: int, next_id: usize)
    requires
        enemies_wf(enemies, next_id),
        0 <= from <= enemies.len(),
    ensures
        from <= owner_from(enemies, id, from) <= enemies.len(),
        owner_from(enemies, id, from) < enemies.len() ==> enemies[owner_from(
            enemies,
            id,
            from,
        )].id == id,
        forall|k: int|
            from <= k < enemies.len() && k != owner_from(enemies, id, from) ==> (
            #[trigger] enemies[k]).id != id,
    decreases enemies.len() - from,
{
    if from < enemies.len() {
        if enemies[from].id == id {
            assert forall|k: int| from <= k < enemies.len() && k != from implies (
            #[trigger] enemies[k]).id != id by {
                assert(enemies[from].id < enemies[k].id);
            }
        } else {
            lemma_owner_unique(enemies, id, from + 1, next_id);
        }
    }
}

/// Among enemies with distinct serial numbers, giving a bullet back takes
/// one off the count of the enemy with the bullet's serial number and
/// leaves the others alone.
proof fn lemma_released_counts(enemies: Seq<Enemy>, id: usize, next_id: usize)
    requires
        enemies_wf(enemies, next_id),
    ensures
        released(enemies, id).len() == enemies.len(),
        forall|i: int|
            0 <= i < enemies.len() ==> #[trigger] released(enemies, id)[i] == if enemies[i].id
                == id {
                relieved(enemies[i])
            } else {
                enemies[i]
            },
{
    lemma_owner_unique(enemies, id, 0, next_id);
}

/// Settling takes from each enemy's count the number of its bullets that
/// have left the screen, stopping at zero.
proof fn lemma_settled_counts(
    enemies: Seq<Enemy>,
    bullets: Seq<EnemyBullet>,
    screen_height: i32,
    n: int,
    next_id: usize,
)
    requires
        enemies_wf(enemies, next_id),
        0 <= n <= bullets.len(),
    ensures
        settled(enemies, bullets, screen_height, n).len() == enemies.len(),
        enemies_wf(settled(enemies, bullets, screen_height, n), next_id),
        forall|i: int|
            0 <= i < enemies.len() ==> {
                let gone = owned_expired(bullets, screen_height, n, enemies[i].id);
                &&& (#[trigger] settled(enemies, bullets, screen_height, n)[i]).id
                    == enemies[i].id
                &&& settled(enemies, bullets, screen_height, n)[i].bullet_count == if gone
                    <= enemies[i].bullet_count {
                    enemies[i].bullet_count - gone
                } else {
                    0
                }
            },
    decreases n,
{
    lemma_settled(enemies, bullets, screen_height, n);
    if n > 0 {
        lemma_settled_counts(enemies, bullets, screen_height, n - 1, next_id);
        let earlier = settled(enemies, bullets, screen_height, n - 1);
        if expired(bullets[n - 1], screen_height) {
            lemma_released_counts(earlier, bullets[n - 1].enemy_id, next_id);
        }
    }
}

/// Of the first `n` bullets, those of one enemy are the ones that stay and
/// the ones that have left the screen.
proof fn lemma_owned_split(bullets: Seq<EnemyBullet>, screen_height: i32, n: int, id: usize)
    requires
        0 <= n <= bullets.len(),
    ensures
        owned(bullets.take(n), id) == owned(
            bullets.take(n).filter(live_enemy_bullet(screen_height)),
            id,
        ) + owned_expired(bullets, screen_height, n, id),
    decreases n,
{
    if n == 0 {
        reveal(Seq::filter);
        assert(bullets.take(0) =~= Seq::<EnemyBullet>::empty());
    } else {
        lemma_owned_split(bullets, screen_height, n - 1, id);
        lemma_filter_step(bullets, n - 1, live_enemy_bullet(screen_height));
        assert(bullets.take(n) =~= bullets.take(n - 1).push(bullets[n - 1]));
        lemma_owned_push(bullets.take(n - 1), bullets[n - 1], id);
        if !expired(bullets[n - 1], screen_height) {
            lemma_owned_push(
                bullets.take(n - 1).filter(live_enemy_bullet(screen_height)),
                bullets[n - 1],
                id,
            );
        }
    }
}

/// Shooting keeps the books right.
proof fn lemma_volley_balanced(w: World)
    requires
        w.wf(),
        world_balanced(w),
    ensures
        world_balanced(w.volley()),
{
    let v = w.volley();
    let shots = volley(w.ship, w.enemies, w.enemies.len() as int);
    assert forall|i: int| 0 <= i < v.enemies.len() implies (#[trigger] v.enemies[i]).bullet_count
        == owned(v.enemy_bullets, v.enemies[i].id) by {
        lemma_owned_volley(w.ship, w.enemies, w.enemies.len() as int, i, w.next_enemy_id);
        lemma_owned_add(w.enemy_bullets, shots, w.enemies[i].id);
        assert(v.enemies[i] == after_firing(w.ship, w.enemies[i]));
        if fires(w.ship, w.enemies[i]) {
            assert(w.enemies[i].bullet_count == 0);
        }
    }
    if w.enemies.len() > 0 {
        lemma_owned_volley(w.ship, w.enemies, w.enemies.len() as int, 0, w.next_enemy_id);
    } else {
        assert(shots =~= Seq::<EnemyBullet>::empty());
    }
}

/// Pruning keeps the books right.
proof fn lemma_prune_balanced(w: World, screen_height: i32)
    requires
        w.wf(),
        world_balanced(w),
    ensures
        world_balanced(w.prune(screen_height)),
{
    let p = w.prune(screen_height);
    let n = w.enemy_bullets.len() as int;
    let home = settled(w.enemies, w.enemy_bullets, screen_height, n);
    lemma_settled_counts(w.enemies, w.enemy_bullets, screen_height, n, w.next_enemy_id);
    assert(w.enemy_bullets.take(n) =~= w.enemy_bullets);
    let right = |e: Enemy| e.bullet_count == owned(p.enemy_bullets, e.id);
    assert forall|i: int| 0 <= i < home.len() implies right(#[trigger] home[i]) by {
        lemma_owned_split(w.enemy_bullets, screen_height, n, w.enemies[i].id);
        assert(w.enemies[i].bullet_count == owned(w.enemy_bullets, w.enemies[i].id));
    }
    lemma_filter_preserves(home, live_enemy(screen_height), right);
    let issued = |b: EnemyBullet| b.enemy_id < w.next_enemy_id;
    assert forall|k: int| 0 <= k < w.enemy_bullets.len() implies issued(
        #[trigger] w.enemy_bullets[k],
    ) by {}
    lemma_filter_preserves(w.enemy_bullets, live_enemy_bullet(screen_height), issued);
    assert forall|i: int| 0 <= i < p.enemies.len() implies (#[trigger] p.enemies[i]).bullet_count
        == owned(p.enemy_bullets, p.enemies[i].id) by {
        assert(right(p.enemies[i]));
    }
    assert forall|k: int| 0 <= k < p.enemy_bullets.len() implies (
    #[trigger] p.enemy_bullets[k]).enemy_id < p.next_enemy_id by {
        assert(issued(p.enemy_bullets[k]));
    }
}

/// A frame keeps the books right: in a well-formed world where every
/// enemy's count is the number of its bullets in flight, it still is after
/// the frame, whatever the input and whichever enemy joins. So the count
/// of an enemy never has to be held at zero: a bullet that is given back
/// was counted.
pub proof fn lemma_frame_keeps_balance(w: World, input: FrameInput, drawn: Option<Shape>)
    requires
        w.wf(),
        world_balanced(w),
        drawn matches Some(s) ==> s.wf(),
    ensures
        w.frame(input, drawn).wf(),
        world_balanced(w.frame(input, drawn)),
{
    lemma_frame_keeps_wf(w, input, drawn);
    match w.state {
        GameState::Playing => {
            let a = w.steer(input).shoot(input.now_micros);
            assert(a.wf() && world_balanced(a));
            let b = a.join(drawn);
            assert(b.wf());
            assert(world_balanced(b)) by {
                if drawn is Some && a.next_enemy_id < usize::MAX {
                    lemma_owned_none(a.enemy_bullets, a.next_enemy_id);
                }
            }
            let m = b.advance(input.delta_micros);
            assert(m.wf());
            assert(world_balanced(m)) by {
                assert forall|i: int| 0 <= i < m.enemies.len() implies (
                #[trigger] m.enemies[i]).bullet_count == owned(
                    m.enemy_bullets,
                    m.enemies[i].id,
                ) by {
                    lemma_owned_same_ids(m.enemy_bullets, b.enemy_bullets, b.enemies[i].id);
                    assert(b.enemies[i].bullet_count == owned(b.enemy_bullets, b.enemies[i].id));
                }
                assert forall|k: int| 0 <= k < m.enemy_bullets.len() implies (
                #[trigger] m.enemy_bullets[k]).enemy_id < m.next_enemy_id by {
                    assert(b.enemy_bullets[k].enemy_id < b.next_enemy_id);
                }
            }
            assert(m == w.moved(input, drawn));
            let s = m.strike();
            lemma_sum_points_nonnegative(m.blasts());
            lemma_scores_monotonic(m.board, sum_points(m.blasts()), m.blasts().len() as int);
            assert(s.wf());
            assert(world_balanced(s)) by {
                assert forall|i: int| 0 <= i < s.enemies.len() implies (
                #[trigger] s.enemies[i]).bullet_count == owned(
                    s.enemy_bullets,
                    s.enemies[i].id,
                ) by {
                    assert(m.enemies[i].bullet_count == owned(m.enemy_bullets, m.enemies[i].id));
                }
            }
            lemma_volley_balanced(s);
            let f = s.volley();
            lemma_volley_wf(s.ship, s.enemies, s.enemies.len() as int);
            assert(f.wf());
            lemma_prune_balanced(f, input.screen_height);
        },
        GameState::MainMenu => {
            if input.play_clicked {
                assert(world_balanced(w.menu(input)));
            }
        },
        _ => {},
    }
}

} // verus!
