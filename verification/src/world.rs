//! What one frame does to the game, as mathematics.
//!
//! [`World`] is the whole state of the game with its collections taken as
//! sequences. Each phase of a frame is a function from world to world, and a
//! frame is their composition; the executable game is proved to follow it.

use vstd::prelude::*;
use crate::combat::{
    after_firing, all_blasts, marked_if, rammed, shot_down, spent, struck, sum_points, volley,
    Blast,
};
use crate::entities::{enemies_wf, enemy_bullets_wf, shapes_wf, Enemy, EnemyBullet};
use crate::geometry::Shape;
use crate::movement::{ascended, descended, may_fire, player_bullet, steered};
use crate::prune::{live_bullet, live_enemy, live_enemy_bullet, settled};
use crate::score::ScoreBoard;
use crate::spawner::enlisted;
use crate::state::{Event, GameState};
use crate::units::{clamp_i32, half};

verus! {

/// What the outside world tells the game at the start of a frame.
#[derive(Clone, Copy, Debug, PartialEq, Eq, Structural)]
pub struct FrameInput {
    /// Extent of the screen, in length units.
    pub screen_width: i32,
    pub screen_height: i32,
    /// Time since the previous frame, in microseconds.
    pub delta_micros: u32,
    /// Time since the program started, in microseconds.
    pub now_micros: u64,
    /// Where the player steers: the sign is the direction, the magnitude the
    /// most the ship may move along that axis in this frame.
    pub dir_x: i32,
    pub dir_y: i32,
    /// The menu's two buttons.
    pub play_clicked: bool,
    pub exit_clicked: bool,
    /// The two keys that change screens.
    pub escape_pressed: bool,
    pub space_pressed: bool,
}

/// The state of the game.
pub struct World {
    pub state: GameState,
    pub ship: Shape,
    pub enemies: Seq<Enemy>,
    pub bullets: Seq<Shape>,
    pub enemy_bullets: Seq<EnemyBullet>,
    pub board: ScoreBoard,
    pub next_enemy_id: usize,
    pub last_bullet_time: u64,
}

impl World {
    /// Every shape has a positive size, no enemy has more than one bullet in
    /// flight, no serial number is used twice or will be handed out again,
    /// and the score is not above the best score.
    pub open spec fn wf(self) -> bool {
        &&& self.ship.wf()
        &&& enemies_wf(self.enemies, self.next_enemy_id)
        &&& shapes_wf(self.bullets)
        &&& enemy_bullets_wf(self.enemy_bullets)
        &&& self.board.wf()
    }

    /// A frame on the menu: the score is wiped, and on "play" a new life
    /// starts with an empty field and the ship at the bottom centre.
    pub open spec fn menu(self, input: FrameInput) -> World {
        if input.play_clicked {
            World {
                state: self.state.after(Event::Play),
                ship: Shape {
                    x: half(input.screen_width as int) as i32,
                    y: clamp_i32(input.screen_height - self.ship.size) as i32,
                    ..self.ship
                },
                enemies: Seq::empty(),
                bullets: Seq::empty(),
                enemy_bullets: Seq::empty(),
                board: self.board.fresh(),
                ..self
            }
        } else {
            World { board: self.board.fresh(), ..self }
        }
    }

    /// A frame while paused: nothing moves; the space key resumes.
    pub open spec fn paused(self, input: FrameInput) -> World {
        if input.space_pressed {
            World { state: self.state.after(Event::Resume), ..self }
        } else {
            self
        }
    }

    /// A frame after the game is over: nothing moves; the space key or the
    /// escape key leads back to the menu.
    pub open spec fn game_over(self, input: FrameInput) -> World {
        if input.space_pressed || input.escape_pressed {
            World { state: self.state.after(Event::Acknowledge), ..self }
        } else {
            self
        }
    }

    /// The ship follows the player's hand and is kept on the screen.
    pub open spec fn steer(self, input: FrameInput) -> World {
        World {
            ship: Shape {
                x: steered(self.ship.x, input.dir_x, input.delta_micros, input.screen_width) as i32,
                y: steered(
                    self.ship.y,
                    input.dir_y,
                    input.delta_micros,
                    input.screen_height,
                ) as i32,
                ..self.ship
            },
            ..self
        }
    }

    /// The ship fires if its last bullet is long enough ago.
    pub open spec fn shoot(self, now: u64) -> World {
        if may_fire(now, self.last_bullet_time) {
            World {
                bullets: self.bullets.push(player_bullet(self.ship)),
                last_bullet_time: now,
                ..self
            }
        } else {
            self
        }
    }

    /// A new enemy joins, if one was drawn.
    pub open spec fn join(self, newcomer: Option<Shape>) -> World {
        match newcomer {
            Some(shape) => World {
                enemies: enlisted(self.enemies, self.next_enemy_id, shape).0,
                next_enemy_id: enlisted(self.enemies, self.next_enemy_id, shape).1,
                ..self
            },
            None => self,
        }
    }

    /// Enemies and their bullets fall, the ship's bullets rise.
    pub open spec fn advance(self, micros: u32) -> World {
        World {
            enemies: self.enemies.map_values(
                |e: Enemy| Enemy { shape: descended(e.shape, micros), ..e },
            ),
            bullets: self.bullets.map_values(|b: Shape| ascended(b, micros)),
            enemy_bullets: self.enemy_bullets.map_values(
                |b: EnemyBullet| EnemyBullet { shape: descended(b.shape, micros), ..b },
            ),
            ..self
        }
    }

    /// The explosions of this frame: one for each enemy and bullet of the
    /// ship that overlap.
    pub open spec fn blasts(self) -> Seq<Blast> {
        all_blasts(self.enemies, self.bullets, self.enemies.len() as int)
    }

    /// Enemies and bullets of the ship that overlap are marked, and the
    /// points are counted.
    pub open spec fn strike(self) -> World {
        World {
            enemies: self.enemies.map_values(
                |e: Enemy|
                    Enemy {
                        shape: marked_if(
                            e.shape,
                            struck(e, self.bullets, self.bullets.len() as int),
                        ),
                        ..e
                    },
            ),
            bullets: self.bullets.map_values(
                |b: Shape| marked_if(b, spent(b, self.enemies, self.enemies.len() as int)),
            ),
            board: self.board.after_hits(sum_points(self.blasts()), self.blasts().len() as int),
            ..self
        }
    }

    /// Enemies that are level with the ship and have no bullet in flight
    /// shoot.
    pub open spec fn volley(self) -> World {
        World {
            enemies: self.enemies.map_values(|e: Enemy| after_firing(self.ship, e)),
            enemy_bullets: self.enemy_bullets + volley(
                self.ship,
                self.enemies,
                self.enemies.len() as int,
            ),
            ..self
        }
    }

    /// What has left the screen or has been hit is dropped: first the enemy
    /// bullets, each given back to its owner, then the enemies, then the
    /// ship's bullets.
    pub open spec fn prune(self, screen_height: i32) -> World {
        World {
            enemy_bullets: self.enemy_bullets.filter(live_enemy_bullet(screen_height)),
            enemies: settled(
                self.enemies,
                self.enemy_bullets,
                screen_height,
                self.enemy_bullets.len() as int,
            ).filter(live_enemy(screen_height)),
            bullets: self.bullets.filter(live_bullet()),
            ..self
        }
    }

    /// The world when everything has moved and nothing has been tested yet.
    pub open spec fn moved(self, input: FrameInput, newcomer: Option<Shape>) -> World {
        self.steer(input).shoot(input.now_micros).join(newcomer).advance(input.delta_micros)
    }

    /// The world when the hits are counted and the enemies have shot.
    pub open spec fn fought(self, input: FrameInput, newcomer: Option<Shape>) -> World {
        self.moved(input, newcomer).strike().volley()
    }

    /// The ship is lost in this frame: an enemy has run into it, or an enemy
    /// bullet has reached it. Bullets shot in this frame count.
    pub open spec fn lost(self, input: FrameInput, newcomer: Option<Shape>) -> bool {
        let m = self.moved(input, newcomer);
        let f = self.fought(input, newcomer);
        rammed(m.ship, m.enemies) || shot_down(f.ship, f.enemy_bullets)
    }

    /// A frame of play: steer, shoot, spawn, move, fight, prune, in that
    /// order. The loss of the ship ends the life; otherwise the escape key
    /// pauses.
    pub open spec fn playing(self, input: FrameInput, newcomer: Option<Shape>) -> World {
        let f = self.fought(input, newcomer);
        World {
            state: if self.lost(input, newcomer) {
                self.state.after(Event::ShipLost)
            } else if input.escape_pressed {
                self.state.after(Event::Pause)
            } else {
                self.state
            },
            ..f.prune(input.screen_height)
        }
    }

    /// One frame, whatever screen the game is on.
    pub open spec fn frame(self, input: FrameInput, newcomer: Option<Shape>) -> World {
        match self.state {
            GameState::MainMenu => self.menu(input),
            GameState::Playing => self.playing(input, newcomer),
            GameState::Paused => self.paused(input),
            GameState::GameOver => self.game_over(input),
        }
    }

    /// The program is to end after this frame.
    pub open spec fn exit_due(self, input: FrameInput) -> bool {
        self.state == GameState::MainMenu && input.exit_clicked
    }

    /// The ship fires in this frame.
    pub open spec fn laser_due(self, input: FrameInput) -> bool {
        self.state == GameState::Playing && may_fire(input.now_micros, self.last_bullet_time)
    }

    /// The explosions of this frame.
    pub open spec fn blasts_due(self, input: FrameInput, newcomer: Option<Shape>) -> Seq<Blast> {
        if self.state == GameState::Playing {
            self.moved(input, newcomer).blasts()
        } else {
            Seq::empty()
        }
    }

    /// The score to be written to the store in this frame, if any. A life
    /// that ends with a score that ties the best score has it written: when
    /// an enemy rams the ship, the score before this frame's hits; when a
    /// bullet reaches it, the score after them. The later of the two is what
    /// the store is left with.
    pub open spec fn record_due(self, input: FrameInput, newcomer: Option<Shape>) -> Option<u32> {
        if self.state == GameState::Playing {
            let m = self.moved(input, newcomer);
            let f = self.fought(input, newcomer);
            if shot_down(f.ship, f.enemy_bullets) && f.board.record() is Some {
                f.board.record()
            } else if rammed(m.ship, m.enemies) {
                m.board.record()
            } else {
                None
            }
        } else {
            None
        }
    }
}

} // verus!
