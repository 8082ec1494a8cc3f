//! What holds of every frame.

use vstd::prelude::*;
use crate::combat::{after_firing, aligned, enemy_shot, fires, sum_points, volley};
use crate::entities::{enemies_wf, enemy_bullets_wf, Enemy, EnemyBullet};
use crate::geometry::Shape;
use crate::movement::{lemma_ship_stays_on_screen, on_screen, BALL_RADIUS};
use crate::prune::{
    lemma_filter_enemies_wf, lemma_settled, live_bullet, live_enemy, live_enemy_bullet, relieved,
    settled,
};
use crate::score::lemma_scores_monotonic;
use crate::state::GameState;
use crate::world::{FrameInput, World};

verus! {

/// What holds of every element of a sequence holds of every element that a
/// filter lets through.
pub proof fn lemma_filter_preserves<A>(s: Seq<A>, keep: spec_fn(A) -> bool, good: spec_fn(A) -> bool)
    requires
        forall|i: int| 0 <= i < s.len() ==> good(#[trigger] s[i]),
    ensures
        forall|i: int| 0 <= i < s.filter(keep).len() ==> good(#[trigger] s.filter(keep)[i]),
    decreases s.len(),
{
    reveal(Seq::filter);
    if s.len() > 0 {
        let front = s.drop_last();
        assert forall|i: int| 0 <= i < front.len() implies good(#[trigger] front[i]) by {
            assert(front[i] == s[i]);
        }
        lemma_filter_preserves(front, keep, good);
        assert(good(s[s.len() - 1]));
        let kept = s.filter(keep);
        assert forall|i: int| 0 <= i < kept.len() implies good(#[trigger] kept[i]) by {
            if i < front.filter(keep).len() {
                assert(kept[i] == front.filter(keep)[i]);
            }
        }
    }
}

/// Every bullet of a volley has a positive size.
pub proof fn lemma_volley_wf(ship: Shape, enemies: Seq<Enemy>, n: int)
    ensures
        enemy_bullets_wf(volley(ship, enemies, n)),
    decreases n,
{
    if n > 0 {
        lemma_volley_wf(ship, enemies, n - 1);
    }
}

/// The points of any number of explosions are not negative.
pub proof fn lemma_sum_points_nonnegative(blasts: Seq<crate::combat::Blast>)
    ensures
        sum_points(blasts) >= 0,
    decreases blasts.len(),
{
    if blasts.len() > 0 {
        lemma_sum_points_nonnegative(blasts.drop_last());
    }
}

/// A frame leaves a well-formed world well formed, whatever the input and
/// whichever enemy joins, as long as the enemy that joins has a positive
/// size. In particular no enemy ever has more than one bullet in flight, no
/// serial number is ever used twice, and the score never passes the best
/// score.
pub proof fn lemma_frame_keeps_wf(w: World, input: FrameInput, drawn: Option<Shape>)
    requires
        w.wf(),
        drawn matches Some(s) ==> s.wf(),
    ensures
        w.frame(input, drawn).wf(),
{
    match w.state {
        GameState::Playing => {
            let a = w.steer(input).shoot(input.now_micros);
            assert(a.wf());
            let b = a.join(drawn);
            assert(b.wf());
            let m = b.advance(input.delta_micros);
            assert(m.wf());
            assert(m == w.moved(input, drawn));
            lemma_sum_points_nonnegative(m.blasts());
            lemma_scores_monotonic(m.board, sum_points(m.blasts()), m.blasts().len() as int);
            let s = m.strike();
            assert(s.wf());
            let f = s.volley();
            lemma_volley_wf(s.ship, s.enemies, s.enemies.len() as int);
            assert(f.wf());
            let p = f.prune(input.screen_height);
            let settled_enemies = settled(
                f.enemies,
                f.enemy_bullets,
                input.screen_height,
                f.enemy_bullets.len() as int,
            );
            lemma_settled(f.enemies, f.enemy_bullets, input.screen_height, f.enemy_bullets.len() as int);
            assert(enemies_wf(settled_enemies, f.next_enemy_id));
            lemma_filter_enemies_wf(settled_enemies, live_enemy(input.screen_height), f.next_enemy_id);
            lemma_filter_preserves(f.bullets, live_bullet(), |b: Shape| b.wf());
            lemma_filter_preserves(
                f.enemy_bullets,
                live_enemy_bullet(input.screen_height),
                |b: EnemyBullet| b.shape.wf(),
            );
            assert(p.wf());
        },
        _ => {},
    }
}

/// On a screen that has room for the ship, the whole ship is on the screen
/// after every frame: after a frame of play, however hard the player pushes
/// and however long the frame took; after the frame that starts a life, if
/// the screen is high enough for the ship to sit one size above the bottom
/// edge; and after any other frame, if it was on the screen before.
pub proof fn lemma_ship_on_screen(w: World, input: FrameInput, drawn: Option<Shape>)
    requires
        input.screen_width >= 2 * BALL_RADIUS,
        input.screen_height >= 2 * BALL_RADIUS,
        match w.state {
            GameState::Playing => true,
            GameState::MainMenu if input.play_clicked => BALL_RADIUS <= w.ship.size
                <= input.screen_height - BALL_RADIUS,
            _ => on_screen(w.ship, input.screen_width, input.screen_height),
        },
    ensures
        on_screen(w.frame(input, drawn).ship, input.screen_width, input.screen_height),
{
    lemma_ship_stays_on_screen(w.ship.x, input.dir_x, input.delta_micros, input.screen_width);
    lemma_ship_stays_on_screen(w.ship.y, input.dir_y, input.delta_micros, input.screen_height);
}

/// After a frame of play the ship's centre is at least a radius away from
/// the left and the top edge, whatever the size of the screen.
pub proof fn lemma_ship_clear_of_near_edges(w: World, input: FrameInput, drawn: Option<Shape>)
    requires
        w.state == GameState::Playing,
    ensures
        BALL_RADIUS <= w.frame(input, drawn).ship.x,
        BALL_RADIUS <= w.frame(input, drawn).ship.y,
{
    lemma_ship_stays_on_screen(w.ship.x, input.dir_x, input.delta_micros, input.screen_width);
    lemma_ship_stays_on_screen(w.ship.y, input.dir_y, input.delta_micros, input.screen_height);
}

/// Every bullet of a volley comes from an enemy that is level with the
/// ship and had no bullet in flight. An enemy that is never level with the
/// ship never shoots, and its count of bullets in flight stays as it is.
pub proof fn lemma_volley_owners(ship: Shape, enemies: Seq<Enemy>, n: int)
    requires
        n <= enemies.len(),
    ensures
        forall|k: int|
            0 <= k < volley(ship, enemies, n).len() ==> exists|i: int|
                0 <= i < n && fires(ship, enemies[i]) && #[trigger] volley(ship, enemies, n)[k]
                    == enemy_shot(#[trigger] enemies[i]),
        forall|i: int|
            0 <= i < enemies.len() && !aligned(ship, #[trigger] enemies[i]) ==> after_firing(
                ship,
                enemies[i],
            ) == enemies[i],
        (forall|i: int| 0 <= i < n ==> !aligned(ship, #[trigger] enemies[i])) ==> volley(
            ship,
            enemies,
            n,
        ) == Seq::<EnemyBullet>::empty(),
    decreases n,
{
    if n > 0 {
        lemma_volley_owners(ship, enemies, n - 1);
        let earlier = volley(ship, enemies, n - 1);
        let all = volley(ship, enemies, n);
        assert forall|k: int| 0 <= k < all.len() implies exists|i: int|
            0 <= i < n && fires(ship, enemies[i]) && #[trigger] all[k] == enemy_shot(
                #[trigger] enemies[i],
            ) by {
            if k < earlier.len() {
                assert(all[k] == earlier[k]);
                let i = choose|i: int|
                    0 <= i < n - 1 && fires(ship, enemies[i]) && #[trigger] earlier[k]
                        == enemy_shot(#[trigger] enemies[i]);
                assert(0 <= i < n && fires(ship, enemies[i]) && all[k] == enemy_shot(enemies[i]));
            } else {
                assert(fires(ship, enemies[n - 1]) && all[k] == enemy_shot(enemies[n - 1]));
            }
        }
    }
}

/// The best score never goes down, and the score goes down only on the
/// menu, where it is wiped for the next life.
pub proof fn lemma_score_never_drops(w: World, input: FrameInput, drawn: Option<Shape>)
    ensures
        w.frame(input, drawn).board.high_score >= w.board.high_score,
        w.state != GameState::MainMenu ==> w.frame(input, drawn).board.score >= w.board.score,
{
    if w.state == GameState::Playing {
        let m = w.moved(input, drawn);
        lemma_sum_points_nonnegative(m.blasts());
        lemma_scores_monotonic(m.board, sum_points(m.blasts()), m.blasts().len() as int);
    }
}

/// In a well-formed world an enemy has no bullet or one bullet in flight;
/// it shoots only when it has none, and then has one; and when a bullet is
/// given back to an enemy that has none in flight, it still has none.
pub proof fn lemma_bullet_count_bounded(w: World, ship: Shape, i: int)
    requires
        w.wf(),
        0 <= i < w.enemies.len(),
    ensures
        w.enemies[i].bullet_count <= 1,
        fires(ship, w.enemies[i]) ==> after_firing(ship, w.enemies[i]).bullet_count == 1,
        !fires(ship, w.enemies[i]) ==> after_firing(ship, w.enemies[i]) == w.enemies[i],
        w.enemies[i].bullet_count == 0 ==> relieved(w.enemies[i]) == w.enemies[i],
        relieved(w.enemies[i]).bullet_count <= w.enemies[i].bullet_count,
{
}

} // verus!
