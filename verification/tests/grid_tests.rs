use std::collections::HashSet;

use conway::frame::{parse_pattern, READ_CHAR_ALIVE, READ_CHAR_DEAD};
use conway::{AppError, Grid, Point};

fn point_set(points: &[Point]) -> HashSet<Point> {
    points.iter().copied().collect()
}

fn live_set(grid: &Grid) -> HashSet<Point> {
    grid.live_points().into_iter().collect()
}

#[test]
fn grid_test_from_str() {
    let grid: Grid = vec![
        format!("{}{}", READ_CHAR_ALIVE, READ_CHAR_ALIVE),
        format!("{}{}{}", READ_CHAR_DEAD, READ_CHAR_DEAD, READ_CHAR_ALIVE),
        format!("{}{}{}", READ_CHAR_DEAD, READ_CHAR_ALIVE, READ_CHAR_DEAD),
    ]
    .join("\n")
    .parse()
    .unwrap();

    assert_eq!(
        live_set(&grid),
        point_set(&[Point(0, 0), Point(1, 0), Point(2, 1), Point(1, 2)]),
    );
    assert!("abc\ndef".parse::<Grid>().is_err())
}

#[test]
fn test_active_cells() {
    let grid = Grid::new(vec![Point(0, 0), Point(1, 1)]);
    assert_eq!(
        grid.active_cells().into_iter().collect::<HashSet<Point>>(),
        point_set(&[
            Point(0, 0),
            Point(-1, -1),
            Point(0, -1),
            Point(1, -1),
            Point(1, 0),
            Point(1, 1),
            Point(0, 1),
            Point(-1, 1),
            Point(-1, 0),
            Point(2, 0),
            Point(2, 1),
            Point(2, 2),
            Point(1, 2),
            Point(0, 2),
        ])
    )
}

#[test]
fn test_live_neighbors() {
    let grid = Grid::new(vec![Point(-1, -1), Point(-1, -2), Point(0, 0), Point(1, 0)]);
    assert_eq!(
        grid.live_neighbors(&Point(0, 0)),
        2,
        "it should work for a live cell"
    );
    assert_eq!(
        grid.live_neighbors(&Point(-1, -3)),
        1,
        "it should work for a dead cell"
    )
}

#[test]
fn test_is_empty() {
    let grid: Grid = Default::default();
    assert!(grid.is_empty());
    let grid = Grid::new(vec![Point(0, 0)]);
    assert!(!grid.is_empty());
}

#[test]
fn test_is_alive() {
    let grid = Grid::new(vec![Point(-1, 4), Point(8, 8)]);
    assert!(&grid.is_alive(&Point(-1, 4)));
    assert!(&grid.is_alive(&Point(8, 8)));
    assert!(!&grid.is_alive(&Point(8, 4)));
}

#[test]
fn test_set_alive_or_dead() {
    let mut grid: Grid = Default::default();
    let cell = Point(3, -3);
    assert!(!&grid.is_alive(&cell));
    grid.set_alive(cell);
    assert!(&grid.is_alive(&cell));
    grid.set_dead(&cell);
    assert!(!&grid.is_alive(&cell));
}

#[test]
fn test_calculate_bounds_1() {
    assert_eq!(
        Grid::new(vec![Point(2, 1), Point(-3, 0), Point(-2, 1), Point(-2, 0)]).calculate_bounds(),
        (Point(-3, 0), Point(2, 1))
    );
}

#[test]
fn test_calculate_bounds_2() {
    assert_eq!(
        Grid::new(vec![Point(53, 4), Point(2, 1), Point(-12, 33)]).calculate_bounds(),
        (Point(-12, 1), Point(53, 33))
    );
}

#[test]
fn grid_parse_reports_first_bad_character() {
    let err = parse_pattern("x.\nx?z", 'x', '.').unwrap_err();
    match err {
        AppError::ParseGrid(msg) => assert_eq!(msg, "unknown character: '?'"),
        other => panic!("unexpected error: {:?}", other),
    }
}

#[test]
fn grid_parse_skips_comments_and_blank_lines() {
    let grid = parse_pattern("# a comment\n\nx.\n   \n.x", 'x', '.').unwrap();
    assert_eq!(live_set(&grid), point_set(&[Point(0, 0), Point(1, 1)]));
}

#[test]
fn grid_parse_custom_glyphs() {
    let grid = parse_pattern("o~\n~o", 'o', '~').unwrap();
    assert_eq!(live_set(&grid), point_set(&[Point(0, 0), Point(1, 1)]));
}

#[test]
fn grid_duplicate_is_equal() {
    let grid = Grid::new(vec![Point(4, 4), Point(-2, 0)]);
    let copy = grid.duplicate();
    assert_eq!(live_set(&grid), live_set(&copy));
}

#[test]
fn grid_midpoint_of_bounds() {
    let grid = Grid::new(vec![Point(2, 2), Point(5, 4)]);
    assert_eq!(grid.midpoint(), Point(4, 3));
    let empty: Grid = Default::default();
    assert_eq!(empty.midpoint(), Point(0, 0));
}
