use conway::{Cmd, Game, GameConfig, Grid, Message, Point, Session, Settings, View};

fn blinker_session() -> Session {
    let game = Game::new(
        Grid::new(vec![Point(1, 0), Point(1, 1), Point(1, 2)]),
        Settings {
            view: View::Fixed,
            char_alive: 'x',
            char_dead: '.',
            width: Some(3),
            height: Some(3),
            ..Default::default()
        },
    );
    Session::new(game)
}

fn is_frame(m: &Message) -> bool {
    matches!(m, Message::Grid(_))
}

#[test]
fn session_starts_paused_and_greets() {
    let sess = blinker_session();
    assert!(sess.is_paused());
    assert_eq!(
        sess.connected(),
        Message::Connected("Connected to game server.".to_string())
    );
}

// Step while paused applies one tick, emits a frame, and stays paused;
// Play starts ticking immediately; Ping ticks while playing; Pause
// stops without ticking; Restart returns to the initial pattern.
#[test]
fn session_command_scenario() {
    let mut sess = blinker_session();

    let msgs = sess.handle("step");
    assert_eq!(msgs.len(), 1);
    assert!(is_frame(&msgs[0]));
    assert!(sess.is_paused());
    assert!(sess.game.grid.is_alive(&Point(0, 1)), "one tick applied");

    let msgs = sess.handle("play");
    assert_eq!(msgs.len(), 1);
    assert!(is_frame(&msgs[0]));
    assert!(!sess.is_paused());
    assert!(sess.game.grid.is_alive(&Point(1, 0)), "second tick applied");

    let msgs = sess.handle("ping");
    assert_eq!(msgs.len(), 1);
    assert!(is_frame(&msgs[0]));
    assert!(sess.game.grid.is_alive(&Point(0, 1)), "third tick applied");

    let msgs = sess.handle("pause");
    assert!(msgs.is_empty());
    assert!(sess.is_paused());
    assert!(sess.game.grid.is_alive(&Point(0, 1)), "pause does not tick");

    let msgs = sess.handle("restart");
    assert_eq!(msgs.len(), 2);
    assert_eq!(
        msgs[0],
        Message::Status("Restarted the current game.".to_string())
    );
    assert!(is_frame(&msgs[1]));
    assert!(sess.game.grid.is_alive(&Point(1, 0)), "initial pattern back");
    assert!(sess.game.grid.is_alive(&Point(1, 1)));
    assert!(sess.game.grid.is_alive(&Point(1, 2)));
    assert!(!sess.game.grid.is_alive(&Point(0, 1)));
}

// Step while playing pauses without emitting a frame.
#[test]
fn step_while_playing_pauses() {
    let mut sess = blinker_session();
    sess.handle("play");
    assert!(!sess.is_paused());
    let msgs = sess.handle("step");
    assert!(msgs.is_empty());
    assert!(sess.is_paused());
}

// Ping while paused is a no-op; Play while playing is a no-op.
#[test]
fn ping_paused_and_play_playing_are_noops() {
    let mut sess = blinker_session();
    assert!(sess.handle("ping").is_empty());
    sess.handle("play");
    assert!(sess.handle("play").is_empty());
}

// Ticking a grid to emptiness stabilizes: a later Ping while playing
// emits a status message instead of a frame and leaves the grid empty.
#[test]
fn extinction_stabilizes() {
    let game = Game::new(
        Grid::new(vec![Point(5, 5)]),
        Settings {
            view: View::Fixed,
            char_alive: 'x',
            char_dead: '.',
            width: Some(1),
            height: Some(1),
            ..Default::default()
        },
    );
    let mut sess = Session::new(game);
    let msgs = sess.handle("play");
    assert_eq!(msgs.len(), 1);
    assert!(is_frame(&msgs[0]));
    assert!(sess.game.is_over());

    let msgs = sess.handle("ping");
    assert_eq!(msgs.len(), 1);
    assert_eq!(msgs[0], Message::Status("Grid has stabilized.".to_string()));
    assert!(sess.game.is_over(), "the empty grid is not mutated further");
}

#[test]
fn scroll_command_pans_viewport() {
    let mut sess = blinker_session();
    let before = sess.game.viewport.fixed();
    let msgs = sess.handle("scroll -1 2");
    assert_eq!(msgs.len(), 1);
    assert!(is_frame(&msgs[0]));
    let after = sess.game.viewport.fixed();
    assert_eq!(after.0, before.0 + Point(-1, 2));
    assert_eq!(after.1, before.1 + Point(-1, 2));
}

#[test]
fn scroll_command_accepts_plus_signs() {
    let mut sess = blinker_session();
    let before = sess.game.viewport.fixed();
    let msgs = sess.handle("scroll +2 +3");
    assert_eq!(msgs.len(), 1);
    assert!(is_frame(&msgs[0]));
    let after = sess.game.viewport.fixed();
    assert_eq!(after.0, before.0 + Point(2, 3));
}

#[test]
fn center_command_centers() {
    let mut sess = blinker_session();
    sess.game.scroll(7, 7);
    let expected = sess.game.viewport_centered();
    let msgs = sess.handle("center");
    assert_eq!(msgs.len(), 1);
    assert!(is_frame(&msgs[0]));
    assert_eq!(sess.game.viewport.fixed(), expected);
}

#[test]
fn new_grid_command_replaces_game_and_snapshot() {
    let mut sess = blinker_session();
    let msgs = sess.handle(
        "new-grid {\"pattern\": \"x.\\n.x\", \"settings\": {\"view\": \"fixed\", \"width\": 2, \"height\": 2, \"char_alive\": \"x\", \"char_dead\": \".\"}}",
    );
    assert_eq!(msgs.len(), 2);
    assert_eq!(msgs[0], Message::Status("Started a new game.".to_string()));
    assert_eq!(msgs[1], Message::Grid("x.\n.x\n".to_string()));

    // The new pattern is also the snapshot Restart returns to.
    sess.handle("step");
    let msgs = sess.handle("restart");
    assert_eq!(msgs[1], Message::Grid("x.\n.x\n".to_string()));
}

// A failed NewGrid leaves the previous game fully intact.
#[test]
fn failed_new_grid_keeps_state() {
    let mut sess = blinker_session();
    let before = sess.game.draw();
    let msgs = sess.handle("new-grid {\"pattern\": \"x?\"}");
    assert_eq!(msgs.len(), 1);
    assert!(matches!(msgs[0], Message::Error(_)));
    assert_eq!(sess.game.draw(), before);

    let msgs = sess.handle("restart");
    assert_eq!(msgs[1], Message::Grid(before));
}

#[test]
fn empty_message_is_an_error() {
    let mut sess = blinker_session();
    let msgs = sess.handle("");
    assert_eq!(msgs.len(), 1);
    assert_eq!(msgs[0], Message::Error("empty message received".to_string()));
}

#[test]
fn unknown_command_is_an_error() {
    let mut sess = blinker_session();
    let msgs = sess.handle("bogus 1 2");
    assert_eq!(msgs.len(), 1);
    assert_eq!(
        msgs[0],
        Message::Error("unrecognized command: bogus".to_string())
    );
}

#[test]
fn malformed_scroll_is_an_error() {
    let mut sess = blinker_session();
    let msgs = sess.handle("scroll a b");
    assert_eq!(msgs.len(), 1);
    assert_eq!(
        msgs[0],
        Message::Error("failed to parse Point: invalid scroll offset: expected an int".to_string())
    );
    let msgs = sess.handle("scroll");
    assert!(matches!(msgs[0], Message::Error(_)));
}

#[test]
fn malformed_new_grid_is_an_error() {
    let mut sess = blinker_session();
    let msgs = sess.handle("new-grid not json");
    assert_eq!(msgs.len(), 1);
    assert_eq!(
        msgs[0],
        Message::Error(
            "invalid game configuration: failed to read config from json".to_string()
        )
    );
}

#[test]
fn scroll_out_of_range_is_refused() {
    let mut sess = blinker_session();
    sess.game.scroll_to(Point(i64::MAX, 0));
    let before = sess.game.viewport;
    let msgs = sess.dispatch(Cmd::Scroll(1, 0));
    assert_eq!(msgs.len(), 1);
    assert_eq!(msgs[0], Message::Error("scroll out of range".to_string()));
    assert_eq!(sess.game.viewport, before);
}

#[test]
fn dispatch_new_grid_config() {
    let mut sess = blinker_session();
    let config = GameConfig {
        settings: Settings {
            view: View::Fixed,
            char_alive: '#',
            char_dead: '-',
            width: Some(2),
            height: Some(1),
            ..Default::default()
        },
        pattern: "x.".to_string(),
    };
    let msgs = sess.dispatch(Cmd::NewGrid(config));
    assert_eq!(msgs.len(), 2);
    assert_eq!(msgs[1], Message::Grid("#-\n".to_string()));
}
