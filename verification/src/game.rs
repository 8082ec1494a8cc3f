//! The game itself: its state, and the step that takes it through a frame.

use vstd::prelude::*;
use crate::combat::{enemies_fire, resolve_hits, ship_hit_by_bullet, ship_hit_by_enemy, Blast};
use crate::entities::{Enemy, EnemyBullet};
use crate::geometry::{Color, Shape};
use crate::laws::{lemma_frame_keeps_wf, lemma_score_never_drops, lemma_ship_on_screen};
use crate::ledger::{lemma_frame_keeps_balance, world_balanced};
use crate::movement::{
    advance_bullets, advance_enemies, advance_enemy_bullets, fire, may_fire, move_ship,
    on_screen, BALL_RADIUS, MOVEMENT_SPEED,
};
use crate::prune::{prune_bullets, prune_enemies, prune_enemy_bullets};
use crate::score::ScoreBoard;
use crate::spawner::{enlist, max_enemies, newcomer, roll_enemy};
use crate::state::{Event, GameState};
use crate::units::{half, halve, saturate};
use crate::world::{FrameInput, World};

verus! {

/// The state of the game. Its view is the [`World`] with the same fields.
#[derive(Debug)]
pub struct Game {
    pub state: GameState,
    pub ship: Shape,
    pub enemies: Vec<Enemy>,
    pub bullets: Vec<Shape>,
    pub enemy_bullets: Vec<EnemyBullet>,
    pub board: ScoreBoard,
    pub next_enemy_id: usize,
    pub last_bullet_time: u64,
}

/// What the outside world has to do after a frame.
#[derive(Debug)]
pub struct FrameOutput {
    /// End the program.
    pub exit: bool,
    /// Write this score to the store as the best score.
    pub persist: Option<u32>,
    /// The ship has fired: play the sound.
    pub laser_fired: bool,
    /// Show these explosions, and play one sound for each.
    pub blasts: Vec<Blast>,
}

impl View for Game {
    type V = World;

    open spec fn view(&self) -> World {
        World {
            state: self.state,
            ship: self.ship,
            enemies: self.enemies@,
            bullets: self.bullets@,
            enemy_bullets: self.enemy_bullets@,
            board: self.board,
            next_enemy_id: self.next_enemy_id,
            last_bullet_time: self.last_bullet_time,
        }
    }
}

/// The ship as it is when the program starts, in the middle of the screen:
/// a disc of radius [`BALL_RADIUS`] with a sprite of the same size.
pub open spec fn first_ship(screen_width: i32, screen_height: i32) -> Shape {
    Shape {
        size: (2 * BALL_RADIUS) as u32,
        speed: MOVEMENT_SPEED,
        x: half(screen_width as int) as i32,
        y: half(screen_height as int) as i32,
        w: (2 * BALL_RADIUS) as u32,
        h: (2 * BALL_RADIUS) as u32,
        color: Color::Gold,
        collided: false,
    }
}

/// The newcomer is one that the dice can give to this world on this screen.
pub open spec fn admissible(w: World, input: FrameInput, drawn: Option<Shape>) -> bool {
    drawn matches Some(s) ==> {
        &&& w.state == GameState::Playing
        &&& w.enemies.len() < max_enemies(input.screen_width)
        &&& newcomer(s, input.screen_width)
    }
}

impl Game {
    /// The game as it is when the program starts: on the menu, with an empty
    /// field, no score, and the best score of earlier sessions.
    pub fn new(high_score: u32, screen_width: i32, screen_height: i32, now_micros: u64) -> (g: Game)
        ensures
            g@ == (World {
                state: GameState::MainMenu,
                ship: first_ship(screen_width, screen_height),
                enemies: Seq::empty(),
                bullets: Seq::empty(),
                enemy_bullets: Seq::empty(),
                board: ScoreBoard { score: 0, high_score, beaten: false },
                next_enemy_id: 0,
                last_bullet_time: now_micros,
            }),
            g@.wf(),
            world_balanced(g@),
    {
        let g = Game {
            state: GameState::initial(),
            ship: Shape {
                size: 2 * (BALL_RADIUS as u32),
                speed: MOVEMENT_SPEED,
                x: halve(screen_width),
                y: halve(screen_height),
                w: 2 * (BALL_RADIUS as u32),
                h: 2 * (BALL_RADIUS as u32),
                color: Color::Gold,
                collided: false,
            },
            enemies: Vec::new(),
            bullets: Vec::new(),
            enemy_bullets: Vec::new(),
            board: ScoreBoard::new(high_score),
            next_enemy_id: 0,
            last_bullet_time: now_micros,
        };
        assert(g.enemies@ =~= Seq::<Enemy>::empty());
        assert(g.bullets@ =~= Seq::<Shape>::empty());
        assert(g.enemy_bullets@ =~= Seq::<EnemyBullet>::empty());
        g
    }

    fn menu_frame(&mut self, input: &FrameInput) -> (out: FrameOutput)
        ensures
            final(self)@ == old(self)@.menu(*input),
            out.exit == input.exit_clicked,
            out.persist is None,
            !out.laser_fired,
            out.blasts@ == Seq::<Blast>::empty(),
    {
        self.board.reset();
        if input.play_clicked {
            self.enemies.clear();
            self.bullets.clear();
            self.enemy_bullets.clear();
            self.ship.x = halve(input.screen_width);
            self.ship.y = saturate(input.screen_height as i64 - self.ship.size as i64);
            self.state = self.state.on(Event::Play);
        }
        FrameOutput {
            exit: input.exit_clicked,
            persist: None,
            laser_fired: false,
            blasts: Vec::new(),
        }
    }

    fn playing_frame(&mut self, input: &FrameInput, drawn: Option<Shape>) -> (out: FrameOutput)
        ensures
            final(self)@ == old(self)@.playing(*input, drawn),
            !out.exit,
            out.laser_fired == may_fire(input.now_micros, old(self).last_bullet_time),
            out.blasts@ == old(self)@.moved(*input, drawn).blasts(),
            out.persist == (World { state: GameState::Playing, ..old(self)@ }).record_due(
                *input,
                drawn,
            ),
    {
        let ghost w0 = self@;
        move_ship(
            &mut self.ship,
            input.dir_x,
            input.dir_y,
            input.delta_micros,
            input.screen_width,
            input.screen_height,
        );
        assert(self@ == w0.steer(*input));
        let laser_fired: bool = fire(
            &mut self.bullets,
            &self.ship,
            input.now_micros,
            &mut self.last_bullet_time,
        );
        assert(self@ == w0.steer(*input).shoot(input.now_micros));
        match drawn {
            Some(shape) => {
                enlist(&mut self.enemies, &mut self.next_enemy_id, shape);
            },
            None => {},
        }
        let ghost w1 = self@;
        assert(w1 == w0.steer(*input).shoot(input.now_micros).join(drawn));
        advance_enemies(&mut self.enemies, input.delta_micros);
        advance_bullets(&mut self.bullets, input.delta_micros);
        advance_enemy_bullets(&mut self.enemy_bullets, input.delta_micros);
        let ghost w2 = self@;
        proof {
            assert(w2.enemies =~= w1.advance(input.delta_micros).enemies);
            assert(w2.bullets =~= w1.advance(input.delta_micros).bullets);
            assert(w2.enemy_bullets =~= w1.advance(input.delta_micros).enemy_bullets);
            assert(w2 == w0.moved(*input, drawn));
        }
        let rammed: bool = ship_hit_by_enemy(&self.enemies, &self.ship);
        let early: Option<u32> = if rammed {
            self.board.to_record()
        } else {
            None
        };
        let blasts: Vec<Blast> = resolve_hits(&mut self.enemies, &mut self.bullets, &mut self.board);
        let ghost w3 = self@;
        proof {
            assert(w3.enemies =~= w2.strike().enemies);
            assert(w3.bullets =~= w2.strike().bullets);
            assert(w3 == w2.strike());
        }
        enemies_fire(&mut self.enemies, &self.ship, &mut self.enemy_bullets);
        let ghost w4 = self@;
        proof {
            assert(w4.enemies =~= w3.volley().enemies);
            assert(w4 == w3.volley());
            assert(w4 == w0.fought(*input, drawn));
        }
        let shot: bool = ship_hit_by_bullet(&self.enemy_bullets, &self.ship);
        let late: Option<u32> = if shot {
            self.board.to_record()
        } else {
            None
        };
        prune_enemy_bullets(&mut self.enemy_bullets, &mut self.enemies, input.screen_height);
        prune_enemies(&mut self.enemies, input.screen_height);
        prune_bullets(&mut self.bullets);
        assert(self@ == w4.prune(input.screen_height));
        if rammed || shot {
            self.state = self.state.on(Event::ShipLost);
        } else if input.escape_pressed {
            self.state = self.state.on(Event::Pause);
        }
        let persist: Option<u32> = match late {
            Some(score) => Some(score),
            None => early,
        };
        FrameOutput { exit: false, persist, laser_fired, blasts }
    }

    fn paused_frame(&mut self, input: &FrameInput)
        ensures
            final(self)@ == old(self)@.paused(*input),
    {
        if input.space_pressed {
            self.state = self.state.on(Event::Resume);
        }
    }

    fn game_over_frame(&mut self, input: &FrameInput)
        ensures
            final(self)@ == old(self)@.game_over(*input),
    {
        if input.space_pressed || input.escape_pressed {
            self.state = self.state.on(Event::Acknowledge);
        }
    }

    /// Takes the game through one frame, with the enemy that joins in this
    /// frame, if any, given by the caller. The game follows
    /// [`World::frame`]; what the caller has to do afterwards is returned.
    pub fn step_with(&mut self, input: &FrameInput, drawn: Option<Shape>) -> (out: FrameOutput)
        ensures
            final(self)@ == old(self)@.frame(*input, drawn),
            out.exit == old(self)@.exit_due(*input),
            out.laser_fired == old(self)@.laser_due(*input),
            out.blasts@ == old(self)@.blasts_due(*input, drawn),
            out.persist == old(self)@.record_due(*input, drawn),
            old(self)@.wf() && (drawn matches Some(s) ==> s.wf()) ==> final(self)@.wf(),
            old(self)@.wf() && world_balanced(old(self)@) && (drawn matches Some(s) ==> s.wf())
                ==> world_balanced(final(self)@),
            final(self).board.high_score >= old(self).board.high_score,
            old(self).state != GameState::MainMenu ==> final(self).board.score
                >= old(self).board.score,
            old(self).state == GameState::Playing && input.screen_width >= 2 * BALL_RADIUS
                && input.screen_height >= 2 * BALL_RADIUS ==> on_screen(
                final(self).ship,
                input.screen_width,
                input.screen_height,
            ),
    {
        proof {
            lemma_score_never_drops(self@, *input, drawn);
            if self.state == GameState::Playing && input.screen_width >= 2 * BALL_RADIUS
                && input.screen_height >= 2 * BALL_RADIUS {
                lemma_ship_on_screen(self@, *input, drawn);
            }
            if self@.wf() && (drawn matches Some(s) ==> s.wf()) {
                lemma_frame_keeps_wf(self@, *input, drawn);
                if world_balanced(self@) {
                    lemma_frame_keeps_balance(self@, *input, drawn);
                }
            }
        }
        match self.state {
            GameState::MainMenu => self.menu_frame(input),
            GameState::Playing => self.playing_frame(input, drawn),
            GameState::Paused => {
                self.paused_frame(input);
                FrameOutput { exit: false, persist: None, laser_fired: false, blasts: Vec::new() }
            },
            GameState::GameOver => {
                self.game_over_frame(input);
                FrameOutput { exit: false, persist: None, laser_fired: false, blasts: Vec::new() }
            },
        }
    }

    /// Takes the game through one frame. During play the dice decide
    /// whether an enemy joins and what it looks like; apart from that the
    /// frame is the one of [`Game::step_with`].
    pub fn step(&mut self, input: &FrameInput) -> (out: FrameOutput)
        ensures
            exists|drawn: Option<Shape>|
                {
                    &&& admissible(old(self)@, *input, drawn)
                    &&& final(self)@ == #[trigger] old(self)@.frame(*input, drawn)
                    &&& out.exit == old(self)@.exit_due(*input)
                    &&& out.laser_fired == old(self)@.laser_due(*input)
                    &&& out.blasts@ == old(self)@.blasts_due(*input, drawn)
                    &&& out.persist == old(self)@.record_due(*input, drawn)
                },
            old(self)@.wf() ==> final(self)@.wf(),
            old(self)@.wf() && world_balanced(old(self)@) ==> world_balanced(final(self)@),
            final(self).board.high_score >= old(self).board.high_score,
            old(self).state != GameState::MainMenu ==> final(self).board.score
                >= old(self).board.score,
            old(self).state == GameState::Playing && input.screen_width >= 2 * BALL_RADIUS
                && input.screen_height >= 2 * BALL_RADIUS ==> on_screen(
                final(self).ship,
                input.screen_width,
                input.screen_height,
            ),
    {
        let drawn: Option<Shape> = match self.state {
            GameState::Playing => roll_enemy(self.enemies.len(), input.screen_width),
            _ => None,
        };
        let ghost w0 = self@;
        let out: FrameOutput = self.step_with(input, drawn);
        proof {
            assert(admissible(w0, *input, drawn));
            assert(self@ == w0.frame(*input, drawn));
        }
        out
    }
}

} // verus!
