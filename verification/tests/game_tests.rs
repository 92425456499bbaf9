use conway::frame::parse_pattern;
use conway::game::split_int;
use conway::{Game, Grid, Point, Settings, View, Viewport};

fn mk_game(cells: Vec<Point>, (width, height): (Option<u64>, Option<u64>)) -> Game {
    Game::new(
        Grid::new(cells),
        Settings {
            width,
            height,
            ..Default::default()
        },
    )
}

// Viewport width/height should be taken from Settings if given.
#[test]
fn test_size_provided() {
    let game = mk_game(vec![Point::origin(), Point(5, 5)], (Some(8), Some(8)));
    assert_eq!(game.viewport.width, 8);
    assert_eq!(game.viewport.height, 8);
}

// Viewport width/height should be derived from the Grid if not given in Settings.
#[test]
fn test_size_auto() {
    let game = mk_game(vec![Point::origin(), Point(5, 5)], (None, None));
    assert_eq!(game.viewport.width, 6);
    assert_eq!(game.viewport.height, 6);
}

#[test]
fn test_survives() {
    let game = mk_game(vec![Point(1, 0), Point(1, 1), Point(1, 2)], (None, None));
    assert!(
        game.survives(&Point(1, 1)),
        "a live cell with 2 live neighbors should survive"
    );
    assert!(
        game.survives(&Point(0, 1)),
        "a dead cell with 3 live neighbors should survive"
    );
    assert!(
        game.survives(&Point(2, 1)),
        "a dead cell with 3 live neighbors should survive"
    );
    assert!(
        !game.survives(&Point(1, 0)),
        "a live cell with < 2 live neighbors should die"
    );
    assert!(
        !game.survives(&Point(1, 2)),
        "a live cell with < 2 live neighbors should die"
    );
}

#[test]
fn test_fixed_1() {
    assert_eq!(
        Viewport {
            origin: Point(-3, 0),
            width: 7,
            height: 7,
            scroll: Point::origin(),
        }
        .fixed(),
        (Point(-3, 0), Point(3, 6)),
        "should pad content to fit width/height"
    );
}

#[test]
fn test_fixed_2() {
    assert_eq!(
        Viewport {
            origin: Point(-12, 1),
            width: 88,
            height: 12,
            scroll: Point::origin(),
        }
        .fixed(),
        (Point(-12, 1), Point(75, 12))
    );
}

#[test]
fn test_fixed_3() {
    assert_eq!(
        Viewport {
            origin: Point(2, 2),
            width: 10,
            height: 3,
            scroll: Point::origin(),
        }
        .fixed(),
        (Point(2, 2), Point(11, 4)),
    );
}

// `Viewport::fixed` adjusts for scroll.
#[test]
fn test_viewport_fixed_with_scroll() {
    assert_eq!(
        Viewport {
            origin: Point(2, 2),
            width: 10,
            height: 3,
            scroll: Point(1, -5),
        }
        .fixed(),
        (Point(3, -3), Point(12, -1))
    );
}

#[test]
fn test_centered_1() {
    assert_eq!(
        Viewport {
            origin: Point(-3, 0),
            width: 7,
            height: 7,
            scroll: Point::origin(),
        }
        .centered(Point(0, 1)),
        (Point(-3, -2), Point(3, 4)),
        "should expand to fit width/height"
    );
}

#[test]
fn test_centered_2() {
    assert_eq!(
        Viewport {
            origin: Point(-12, 1),
            width: 88,
            height: 12,
            scroll: Point::origin(),
        }
        .centered(Point(21, 17)),
        (Point(-23, 11), Point(64, 22)),
        "should narrow to fit width/height"
    );
}

#[test]
fn test_centered_3() {
    assert_eq!(
        Viewport {
            origin: Point(2, 2),
            width: 10,
            height: 3,
            scroll: Point::origin(),
        }
        .centered(Point(4, 3)),
        (Point(-1, 2), Point(8, 4)),
    );
}

// `Viewport::centered` ignores the current scroll.
#[test]
fn test_viewport_centered_with_scroll() {
    assert_eq!(
        Viewport {
            origin: Point(2, 2),
            width: 10,
            height: 3,
            scroll: Point(1, -5),
        }
        .centered(Point(4, 3)),
        (Point(-1, 2), Point(8, 4))
    );
}

#[test]
fn test_scroll() {
    let mut game = mk_game(vec![Point(3, 0), Point(-1, 1), Point(0, -3)], (None, None));
    game.scroll_to(Point(0, 0));
    assert_eq!(game.viewport.fixed(), (Point(-1, -3), Point(3, 1)));
    game.scroll(2, -4);
    assert_eq!(game.viewport.fixed(), (Point(1, -7), Point(5, -3)));
}

#[test]
fn test_center_viewport() {
    let mut game = mk_game(
        vec![Point(2, 3), Point(3, 3), Point(5, 4), Point(4, 2)],
        (Some(10), Some(3)),
    );
    let expected = game.viewport_centered();
    game.center_viewport();
    assert_eq!(game.viewport.fixed(), expected);
}

// `Game::center_viewport` should account for the current scroll.
#[test]
fn test_center_viewport_with_scroll() {
    let mut game = mk_game(
        vec![Point(2, 3), Point(3, 3), Point(5, 4), Point(4, 2)],
        (Some(10), Some(3)),
    );
    game.scroll(-1, 2);
    let expected = game.viewport_centered();
    game.center_viewport();
    assert_eq!(game.viewport.fixed(), expected);
}

#[test]
fn test_split_int() {
    assert_eq!(split_int(30), (15, 15));
    assert_eq!(split_int(31), (15, 16));
    assert_eq!(split_int(32), (16, 16));
    assert_eq!(split_int(0), (0, 0));
    assert_eq!(split_int(1), (0, 1));
    assert_eq!(split_int(2), (1, 1));
}

// Splitting rounds toward negative infinity.
#[test]
fn split_int_negative_values() {
    assert_eq!(split_int(7), (3, 4));
    assert_eq!(split_int(-1), (-1, 0));
    assert_eq!(split_int(-2), (-1, -1));
    assert_eq!(split_int(-3), (-2, -1));
}

fn fixed_game(cells: Vec<Point>, width: u64, height: u64) -> Game {
    Game::new(
        Grid::new(cells),
        Settings {
            view: View::Fixed,
            char_alive: 'x',
            char_dead: '.',
            width: Some(width),
            height: Some(height),
            ..Default::default()
        },
    )
}

// A blinker flips from a column to a row in one generation.
#[test]
fn blinker_tick() {
    let mut game = fixed_game(vec![Point(1, 0), Point(1, 1), Point(1, 2)], 3, 3);
    game.tick();
    assert!(game.grid.is_alive(&Point(0, 1)));
    assert!(game.grid.is_alive(&Point(1, 1)));
    assert!(game.grid.is_alive(&Point(2, 1)));
    assert!(!game.grid.is_alive(&Point(1, 0)));
    assert!(!game.grid.is_alive(&Point(1, 2)));
    assert_eq!(game.grid.live_points().len(), 3);
}

// Ticking a lone cell to death makes the game over.
#[test]
fn extinction_is_over() {
    let mut game = fixed_game(vec![Point(5, 5)], 1, 1);
    assert!(!game.is_over());
    game.tick();
    assert!(game.is_over());
}

// The rendered frame of a known window, character for character.
#[test]
fn draw_exact_frame() {
    let game = fixed_game(vec![Point(1, 0), Point(1, 1), Point(1, 2)], 3, 3);
    assert_eq!(game.draw(), "x..\nx..\nx..\n");
}

// Natural size 4x3 in a 10x3 window pads the width symmetrically.
#[test]
fn centered_window_pads_width() {
    let game = mk_game(
        vec![Point(2, 3), Point(3, 3), Point(5, 4), Point(4, 2)],
        (Some(10), Some(3)),
    );
    assert_eq!(game.viewport_centered(), (Point(-1, 2), Point(8, 4)));
}

// Parsing a rendered frame and re-rendering it at the same window size
// reproduces the text exactly.
#[test]
fn frame_round_trip() {
    let game = fixed_game(vec![Point(1, 0), Point(1, 1), Point(1, 2)], 3, 3);
    let frame = game.draw();
    let reparsed = parse_pattern(&frame, 'x', '.').unwrap();
    let again = fixed_game(reparsed.live_points(), 3, 3);
    assert_eq!(again.draw(), frame);
}

// Centering twice yields the same viewport as centering once.
#[test]
fn center_viewport_idempotent() {
    let mut game = mk_game(
        vec![Point(2, 3), Point(3, 3), Point(5, 4), Point(4, 2)],
        (Some(10), Some(3)),
    );
    game.center_viewport();
    let once = game.viewport;
    game.center_viewport();
    assert_eq!(game.viewport, once);
}

// `reset_grid` replaces the cells but keeps viewport and settings.
#[test]
fn reset_grid_keeps_viewport() {
    let mut game = fixed_game(vec![Point(0, 0)], 2, 2);
    let vp = game.viewport;
    game.reset_grid(Grid::new(vec![Point(1, 1)]));
    assert_eq!(game.viewport, vp);
    assert!(game.grid.is_alive(&Point(1, 1)));
    assert!(!game.grid.is_alive(&Point(0, 0)));
}

// A fixed-view game starts anchored at the pattern's bounding box with
// zero scroll.
#[test]
fn new_fixed_starts_at_origin() {
    let game = fixed_game(vec![Point(2, 3), Point(4, 5)], 3, 3);
    assert_eq!(game.viewport.origin, Point(2, 3));
    assert_eq!(game.viewport.scroll, Point(0, 0));
}

// A centered-view game is centered before its very first frame.
#[test]
fn new_centered_starts_centered() {
    let game = mk_game(vec![Point(2, 3), Point(4, 5)], (Some(9), Some(9)));
    assert_eq!(game.viewport.fixed(), game.viewport_centered());
}
