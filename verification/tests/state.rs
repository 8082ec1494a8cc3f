use afuera::state::{Event, GameState};

#[test]
fn game_starts_on_the_menu() {
    assert_eq!(GameState::initial(), GameState::MainMenu);
}

#[test]
fn the_valid_moves() {
    assert_eq!(GameState::MainMenu.on(Event::Play), GameState::Playing);
    assert_eq!(GameState::Playing.on(Event::Pause), GameState::Paused);
    assert_eq!(GameState::Paused.on(Event::Resume), GameState::Playing);
    assert_eq!(GameState::Playing.on(Event::ShipLost), GameState::GameOver);
    assert_eq!(GameState::GameOver.on(Event::Acknowledge), GameState::MainMenu);
}

#[test]
fn every_other_event_changes_nothing() {
    let states = [GameState::MainMenu, GameState::Playing, GameState::Paused, GameState::GameOver];
    let events =
        [Event::Play, Event::Pause, Event::Resume, Event::ShipLost, Event::Acknowledge];
    let mut moves = 0;
    for s in states {
        for e in events {
            let valid = matches!(
                (s, e),
                (GameState::MainMenu, Event::Play)
                    | (GameState::Playing, Event::Pause)
                    | (GameState::Paused, Event::Resume)
                    | (GameState::Playing, Event::ShipLost)
                    | (GameState::GameOver, Event::Acknowledge)
            );
            if valid {
                assert_ne!(s.on(e), s);
                moves += 1;
            } else {
                assert_eq!(s.on(e), s);
            }
        }
    }
    assert_eq!(moves, 5);
}
