//! The four screens of the game and the moves between them.

use vstd::prelude::*;

verus! {

/// Which screen the game is on.
#[derive(Clone, Copy, Debug, PartialEq, Eq, Structural)]
pub enum GameState {
    MainMenu,
    Playing,
    Paused,
    GameOver,
}

/// What can move the game from one screen to another.
#[derive(Clone, Copy, Debug, PartialEq, Eq, Structural)]
pub enum Event {
    /// The player chose to play.
    Play,
    /// The player asked for a pause.
    Pause,
    /// The player asked to go on.
    Resume,
    /// The ship was hit by an enemy or by a bullet.
    ShipLost,
    /// The player has seen that the game is over.
    Acknowledge,
}

impl GameState {
    /// The screen after an event. An event that means nothing on the
    /// current screen leaves it as it is.
    pub open spec fn after(self, event: Event) -> GameState {
        match (self, event) {
            (GameState::MainMenu, Event::Play) => GameState::Playing,
            (GameState::Playing, Event::Pause) => GameState::Paused,
            (GameState::Paused, Event::Resume) => GameState::Playing,
            (GameState::Playing, Event::ShipLost) => GameState::GameOver,
            (GameState::GameOver, Event::Acknowledge) => GameState::MainMenu,
            _ => self,
        }
    }

    /// The screen a fresh process starts on.
    pub fn initial() -> (s: GameState)
        ensures
            s == GameState::MainMenu,
    {
        GameState::MainMenu
    }

    /// Executable form of [`GameState::after`].
    pub fn on(self, event: Event) -> (next: GameState)
        ensures
            next == self.after(event),
    {
        match (self, event) {
            (GameState::MainMenu, Event::Play) => GameState::Playing,
            (GameState::Playing, Event::Pause) => GameState::Paused,
            (GameState::Paused, Event::Resume) => GameState::Playing,
            (GameState::Playing, Event::ShipLost) => GameState::GameOver,
            (GameState::GameOver, Event::Acknowledge) => GameState::MainMenu,
            _ => self,
        }
    }
}

} // verus!
