//! Bringing new enemies onto the playfield.
//!
//! Each frame that has room for one more enemy rolls a die; on a high roll an
//! enemy of random size, speed, column and colour appears just above the top
//! edge. How many enemies there is room for, and how large they are, grows
//! with the width of the screen.

use vstd::prelude::*;
use crate::entities::{enemies_wf, Enemy};
use crate::geometry::{Color, Shape};
use crate::random::{draw_between, pick_color};
use crate::units::{clamp_i32, clamp_u32, saturate, saturate_u32};

verus! {

/// The screen width, in length units, at which sizes are not scaled.
pub const BASE_WIDTH: i32 = 750_000;

/// How many enemies a screen of [`BASE_WIDTH`] has room for.
pub const BASE_ENEMIES: i32 = 30;

/// The die shows a number from 0 up to this.
pub const ROLL_LIMIT: i32 = 99;

/// The lowest roll on which an enemy appears.
pub const SPAWN_ROLL: i32 = 95;

/// Least and greatest size of an enemy on a screen of [`BASE_WIDTH`].
pub const MIN_ENEMY_SIZE: i32 = 16_000;

pub const MAX_ENEMY_SIZE: i32 = 64_000;

/// Least and greatest speed of an enemy.
pub const MIN_ENEMY_SPEED: i32 = 50_000;

pub const MAX_ENEMY_SPEED: i32 = 150_000;

/// The colours enemies come in.
pub open spec fn palette() -> Seq<Color> {
    seq![
        Color::Beige,
        Color::Blue,
        Color::Brown,
        Color::DarkBlue,
        Color::DarkBrown,
        Color::DarkGray,
        Color::DarkGreen,
        Color::DarkPurple,
        Color::Gray,
        Color::Green,
        Color::Lime,
        Color::Magenta,
        Color::Maroon,
        Color::Orange,
        Color::Pink,
        Color::Purple,
        Color::Red,
        Color::SkyBlue,
        Color::Violet,
        Color::Yellow,
    ]
}

/// How many enemies a screen of the given width has room for: thirty at
/// [`BASE_WIDTH`], in proportion otherwise, rounded down.
pub open spec fn max_enemies(screen_width: i32) -> int {
    if screen_width <= 0 {
        0
    } else {
        (BASE_ENEMIES * screen_width) / (BASE_WIDTH as int)
    }
}

/// A size drawn for a screen of [`BASE_WIDTH`], brought to the scale of a
/// screen of the given width and rounded down. Sizes too large to hold are
/// cut off at the largest that can be held.
pub open spec fn scaled_size(base: i32, screen_width: i32) -> int {
    if base <= 0 || screen_width <= 0 {
        0
    } else {
        clamp_u32((base * screen_width) / (BASE_WIDTH as int))
    }
}

/// Whether an enemy appears this frame.
pub open spec fn spawns(count: nat, screen_width: i32, roll: i32) -> bool {
    count < max_enemies(screen_width) && roll >= SPAWN_ROLL
}

/// The body of the enemy that appears, given what was drawn for it. It
/// starts one size above the top edge, and its sprite is as large as its
/// body.
pub open spec fn hatched(size: u32, speed: u32, x: i32, color: Color) -> Shape {
    Shape {
        size,
        speed,
        x,
        y: clamp_i32(-(size as int)) as i32,
        w: size,
        h: size,
        color,
        collided: false,
    }
}

/// The enemy that a body becomes when it joins under the serial number `id`.
pub open spec fn recruit(id: usize, shape: Shape) -> Enemy {
    Enemy { id, shape, bullet_count: 0 }
}

/// The colour an enemy gets from a pick out of the palette; without a pick
/// it gets the first colour.
pub open spec fn chosen(pick: Option<Color>) -> Color {
    match pick {
        Some(c) => c,
        None => Color::Beige,
    }
}

/// `s` is the body of an enemy that can appear on a screen of the given
/// width: its size is a size for a screen of [`BASE_WIDTH`] brought to scale,
/// its speed is in range, it is wholly on the screen from left to right, and
/// its colour is from the palette.
pub open spec fn newcomer(s: Shape, screen_width: i32) -> bool {
    &&& exists|base: i32|
        MIN_ENEMY_SIZE <= base <= MAX_ENEMY_SIZE && s.size == #[trigger] scaled_size(
            base,
            screen_width,
        )
    &&& s.size > 0
    &&& MIN_ENEMY_SPEED <= s.speed <= MAX_ENEMY_SPEED
    &&& s.size / 2 <= s.x <= screen_width - s.size / 2
    &&& palette().contains(s.color)
    &&& s == hatched(s.size, s.speed, s.x, s.color)
}

/// What the dice showed for one enemy: the roll that decides whether it
/// appears, its size on a screen of [`BASE_WIDTH`], its speed, its column,
/// and the colour picked for it, if one was picked.
#[derive(Clone, Copy, Debug)]
pub struct Draws {
    pub roll: i32,
    pub base_size: i32,
    pub speed: i32,
    pub x: i32,
    pub pick: Option<Color>,
}

/// The draws are ones that the dice can show on a screen of the given width:
/// each number lies in the range it is drawn from, the column leaves room for
/// half the enemy on either side, and the colour is from the palette.
pub open spec fn fair(d: Draws, screen_width: i32) -> bool {
    &&& 0 <= d.roll <= ROLL_LIMIT
    &&& MIN_ENEMY_SIZE <= d.base_size <= MAX_ENEMY_SIZE
    &&& MIN_ENEMY_SPEED <= d.speed <= MAX_ENEMY_SPEED
    &&& scaled_size(d.base_size, screen_width) / 2 <= d.x <= screen_width - scaled_size(
        d.base_size,
        screen_width,
    ) / 2
    &&& d.pick matches Some(c) ==> palette().contains(c)
}

/// What the draws lead to when `count` enemies are there: on a high roll
/// with room to spare, the body of a new enemy, made of the size brought to
/// scale, the speed, the column and the colour; otherwise nothing.
pub open spec fn outcome(count: nat, screen_width: i32, d: Draws) -> Option<Shape> {
    if spawns(count, screen_width, d.roll) {
        Some(
            hatched(
                scaled_size(d.base_size, screen_width) as u32,
                clamp_u32(d.speed as int) as u32,
                d.x,
                chosen(d.pick),
            ),
        )
    } else {
        None
    }
}

/// A size brought to scale can be held, is no wider than the screen, and is
/// positive on a screen that has room for an enemy.
pub proof fn lemma_scaled_size_fits(base: i32, screen_width: i32)
    ensures
        0 <= scaled_size(base, screen_width) <= u32::MAX,
        base <= BASE_WIDTH && screen_width >= 0 ==> scaled_size(base, screen_width)
            <= screen_width,
        base >= MIN_ENEMY_SIZE && max_enemies(screen_width) >= 1 ==> scaled_size(
            base,
            screen_width,
        ) > 0,
{
    if base > 0 && screen_width > 0 {
        let b = base as int;
        let s = screen_width as int;
        assert(0 < b * s) by (nonlinear_arith)
            requires
                0 < b,
                0 < s,
        ;
        assert(b <= 750_000 ==> b * s <= 750_000 * s) by (nonlinear_arith)
            requires
                0 < s,
        ;
        assert(b >= 16_000 && s >= 25_000 ==> b * s >= 750_000) by (nonlinear_arith);
    }
}

/// What fair draws lead to, if anything, is the body of an enemy that can
/// appear on the screen.
pub proof fn lemma_outcome_is_newcomer(count: nat, screen_width: i32, d: Draws)
    requires
        fair(d, screen_width),
    ensures
        outcome(count, screen_width, d) matches Some(s) ==> count < max_enemies(screen_width)
            && newcomer(s, screen_width),
{
    lemma_scaled_size_fits(d.base_size, screen_width);
    if spawns(count, screen_width, d.roll) {
        let s = outcome(count, screen_width, d)->0;
        assert(s.size == scaled_size(d.base_size, screen_width));
        assert(palette().contains(chosen(d.pick))) by {
            assert(palette()[0] == Color::Beige);
        }
    }
}

/// The enemies and the next serial number after a body has asked to join.
/// It joins at the end under the next serial number, unless the serial
/// numbers have run out.
pub open spec fn enlisted(enemies: Seq<Enemy>, next_id: usize, shape: Shape) -> (Seq<Enemy>, usize) {
    if next_id < usize::MAX {
        (enemies.push(recruit(next_id, shape)), (next_id + 1) as usize)
    } else {
        (enemies, next_id)
    }
}

/// The colours enemies come in.
pub fn enemy_palette() -> (colors: Vec<Color>)
    ensures
        colors@ == palette(),
{
    let colors: Vec<Color> = vec![
        Color::Beige,
        Color::Blue,
        Color::Brown,
        Color::DarkBlue,
        Color::DarkBrown,
        Color::DarkGray,
        Color::DarkGreen,
        Color::DarkPurple,
        Color::Gray,
        Color::Green,
        Color::Lime,
        Color::Magenta,
        Color::Maroon,
        Color::Orange,
        Color::Pink,
        Color::Purple,
        Color::Red,
        Color::SkyBlue,
        Color::Violet,
        Color::Yellow,
    ];
    assert(colors@ =~= palette());
    colors
}

/// Executable form of [`max_enemies`].
pub fn enemy_capacity(screen_width: i32) -> (n: usize)
    ensures
        n == max_enemies(screen_width),
{
    if screen_width <= 0 {
        0
    } else {
        ((30 * (screen_width as i64)) / 750_000) as usize
    }
}

/// Executable form of [`scaled_size`].
pub fn scale_size(base: i32, screen_width: i32) -> (size: u32)
    ensures
        size == scaled_size(base, screen_width),
{
    if base <= 0 || screen_width <= 0 {
        0
    } else {
        proof {
            let b = base as int;
            let s = screen_width as int;
            assert(0 < b * s <= 0x7fff_ffff * 0x7fff_ffff) by (nonlinear_arith)
                requires
                    0 < b <= 0x7fff_ffff,
                    0 < s <= 0x7fff_ffff,
            ;
        }
        let wide: u64 = (base as u64) * (screen_width as u64);
        saturate_u32(wide / 750_000)
    }
}

/// Executable form of [`spawns`].
pub fn should_spawn(count: usize, screen_width: i32, roll: i32) -> (yes: bool)
    ensures
        yes == spawns(count as nat, screen_width, roll),
{
    count < enemy_capacity(screen_width) && roll >= SPAWN_ROLL
}

/// Executable form of [`hatched`].
pub fn new_enemy_shape(size: u32, speed: u32, x: i32, color: Color) -> (s: Shape)
    ensures
        s == hatched(size, speed, x, color),
{
    Shape {
        size,
        speed,
        x,
        y: saturate(-(size as i64)),
        w: size,
        h: size,
        color,
        collided: false,
    }
}

/// Executable form of [`chosen`].
pub fn choose_color(pick: Option<Color>) -> (c: Color)
    ensures
        c == chosen(pick),
{
    match pick {
        Some(c) => c,
        None => Color::Beige,
    }
}

/// Executable form of [`outcome`].
pub fn enemy_from_draws(count: usize, screen_width: i32, d: Draws) -> (made: Option<Shape>)
    ensures
        made == outcome(count as nat, screen_width, d),
{
    if should_spawn(count, screen_width, d.roll) {
        let size: u32 = scale_size(d.base_size, screen_width);
        let speed: u32 = if d.speed < 0 {
            0
        } else {
            d.speed as u32
        };
        Some(new_enemy_shape(size, speed, d.x, choose_color(d.pick)))
    } else {
        None
    }
}

/// Rolls the die, if there is room for one more enemy beside the `count`
/// that are there, and on a high roll draws the rest of a new enemy: its
/// size, its speed, its column between the edges of the screen, and its
/// colour. What comes back is what [`outcome`] makes of these draws; with no
/// room nothing is rolled and nothing comes back.
pub fn roll_enemy(count: usize, screen_width: i32) -> (drawn: Option<Shape>)
    ensures
        count >= max_enemies(screen_width) ==> drawn is None,
        count < max_enemies(screen_width) ==> exists|d: Draws|
            fair(d, screen_width) && drawn == #[trigger] outcome(count as nat, screen_width, d),
        drawn matches Some(s) ==> count < max_enemies(screen_width) && newcomer(s, screen_width),
{
    if count >= enemy_capacity(screen_width) {
        return None;
    }
    let roll: i32 = draw_between(0, ROLL_LIMIT);
    if !should_spawn(count, screen_width, roll) {
        proof {
            lemma_scaled_size_fits(MIN_ENEMY_SIZE, screen_width);
            let idle = Draws {
                roll,
                base_size: MIN_ENEMY_SIZE,
                speed: MIN_ENEMY_SPEED,
                x: (scaled_size(MIN_ENEMY_SIZE, screen_width) / 2) as i32,
                pick: None,
            };
            assert(fair(idle, screen_width));
            assert(outcome(count as nat, screen_width, idle) is None);
        }
        return None;
    }
    let base_size: i32 = draw_between(MIN_ENEMY_SIZE, MAX_ENEMY_SIZE);
    let size: u32 = scale_size(base_size, screen_width);
    let speed: i32 = draw_between(MIN_ENEMY_SPEED, MAX_ENEMY_SPEED);
    proof {
        lemma_scaled_size_fits(base_size, screen_width);
    }
    let left: i32 = (size / 2) as i32;
    let right: i32 = screen_width - (size / 2) as i32;
    let x: i32 = draw_between(left, right);
    let colors: Vec<Color> = enemy_palette();
    let pick: Option<Color> = pick_color(&colors);
    let d: Draws = Draws { roll, base_size, speed, x, pick };
    proof {
        assert(fair(d, screen_width));
        lemma_outcome_is_newcomer(count as nat, screen_width, d);
    }
    enemy_from_draws(count, screen_width, d)
}

/// Adds an enemy with the given body at the end of `enemies`. It takes the
/// serial number `next_id`, which then moves on by one, so no number is
/// handed out twice. Nothing is added once the serial numbers have run out.
pub fn enlist(enemies: &mut Vec<Enemy>, next_id: &mut usize, shape: Shape) -> (joined: bool)
    ensures
        joined == (*old(next_id) < usize::MAX),
        (final(enemies)@, *final(next_id)) == enlisted(old(enemies)@, *old(next_id), shape),
        shape.wf() && enemies_wf(old(enemies)@, *old(next_id)) ==> enemies_wf(
            final(enemies)@,
            *final(next_id),
        ),
{
    if *next_id == usize::MAX {
        return false;
    }
    enemies.push(Enemy { id: *next_id, shape, bullet_count: 0 });
    *next_id = *next_id + 1;
    true
}

} // verus!
