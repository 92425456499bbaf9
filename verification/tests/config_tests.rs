use conway::{AppError, GameConfig, Menu, Point, Rect, Settings, Sym, View};

#[test]
fn settings_default_values() {
    let s: Settings = Default::default();
    assert_eq!(s.delay_ms, 500);
    assert_eq!(s.view, View::Centered);
    assert_eq!(s.char_alive, '#');
    assert_eq!(s.char_dead, '-');
    assert_eq!(s.width, None);
    assert_eq!(s.height, None);
}

#[test]
fn view_names_round_trip() {
    assert_eq!(View::parse_name("centered").unwrap(), View::Centered);
    assert_eq!(View::parse_name("fixed").unwrap(), View::Fixed);
    assert_eq!(View::parse_name("follow").unwrap(), View::Follow);
    assert_eq!(View::Fixed.name(), "fixed");
    assert!(matches!(
        View::parse_name("diagonal").unwrap_err(),
        AppError::Config(_)
    ));
}

#[test]
fn from_json_defaults() {
    let config = GameConfig::from_json("{\"pattern\": \"x\"}").unwrap();
    assert_eq!(config.pattern, "x");
    assert_eq!(config.settings, Settings::default());
}

#[test]
fn from_json_full_settings() {
    let config = GameConfig::from_json(
        "{\"pattern\": \".x\", \"settings\": {\"delay\": 100, \"view\": \"fixed\", \
         \"char_alive\": \"o\", \"char_dead\": \" \", \"width\": 50, \"height\": 40}}",
    )
    .unwrap();
    assert_eq!(config.settings.delay_ms, 100);
    assert_eq!(config.settings.view, View::Fixed);
    assert_eq!(config.settings.char_alive, 'o');
    assert_eq!(config.settings.char_dead, ' ');
    assert_eq!(config.settings.width, Some(50));
    assert_eq!(config.settings.height, Some(40));
}

#[test]
fn from_json_rejects_bad_members() {
    assert!(GameConfig::from_json("{}").is_err());
    assert!(GameConfig::from_json("{\"pattern\": 3}").is_err());
    assert!(GameConfig::from_json("not json").is_err());
    assert!(
        GameConfig::from_json("{\"pattern\": \"x\", \"settings\": {\"view\": \"diag\"}}").is_err()
    );
    assert!(GameConfig::from_json(
        "{\"pattern\": \"x\", \"settings\": {\"char_alive\": \"xx\"}}"
    )
    .is_err());
    assert!(
        GameConfig::from_json("{\"pattern\": \"x\", \"settings\": {\"delay\": -4}}").is_err()
    );
}

#[test]
fn build_runs_the_pattern() {
    let config = GameConfig {
        settings: Settings {
            view: View::Fixed,
            char_alive: 'x',
            char_dead: '.',
            width: Some(3),
            height: Some(3),
            ..Default::default()
        },
        pattern: ".x.\n.x.\n.x.".to_string(),
    };
    let mut game = config.build().unwrap();
    // The fixed window anchors at the pattern's natural origin (1, 0).
    assert_eq!(game.draw(), "x..\nx..\nx..\n");
    game.tick();
    assert_eq!(game.draw(), "...\nxx.\n...\n");
}

#[test]
fn build_rejects_follow_view() {
    let config = GameConfig {
        settings: Settings {
            view: View::Follow,
            ..Default::default()
        },
        pattern: "x".to_string(),
    };
    assert!(matches!(config.build().unwrap_err(), AppError::Config(_)));
}

#[test]
fn build_rejects_zero_width() {
    let config = GameConfig {
        settings: Settings {
            width: Some(0),
            ..Default::default()
        },
        pattern: "x".to_string(),
    };
    assert!(matches!(config.build().unwrap_err(), AppError::Config(_)));
}

#[test]
fn build_rejects_bad_pattern() {
    let config = GameConfig {
        settings: Default::default(),
        pattern: "xq".to_string(),
    };
    match config.build().unwrap_err() {
        AppError::ParseGrid(msg) => assert_eq!(msg, "unknown character: 'q'"),
        other => panic!("unexpected error: {:?}", other),
    }
}

#[test]
fn error_descriptions() {
    assert_eq!(
        AppError::EmptyMessage.describe(),
        "empty message received"
    );
    assert_eq!(
        AppError::ParseGrid("oops".to_string()).describe(),
        "failed to parse grid: oops"
    );
    assert_eq!(
        AppError::UnknownCommand("zap".to_string()).describe(),
        "unrecognized command: zap"
    );
}

#[test]
fn rect_shape_and_coords() {
    let rect = Rect::new(1, 2, 3, 4);
    assert_eq!(rect.shape(), (1, 2, 3, 4));
    assert_eq!(rect.coords(), (1, 2, 3, 5));
}

#[test]
fn rect_resized_grows_around_center() {
    let rect = Rect::new(3, 3, 4, 4);
    let grown = rect.resized(2, 2);
    assert_eq!(grown.shape(), (2, 2, 6, 6));
}

#[test]
fn menu_holds_its_parts() {
    let menu = Menu::new(Rect::new(0, 0, 23, 20), 1, 1);
    assert_eq!(menu.rect.shape(), (0, 0, 23, 20));
    assert_eq!(menu.padding, 1);
    assert_eq!(menu.margin, 1);
}

#[test]
fn sym_glyphs() {
    assert_eq!(Sym::BoxTopLeft.glyph(), '\u{2554}');
    assert_eq!(Sym::BoxHorizontal.glyph(), '\u{2550}');
    assert_eq!(Sym::BoxVertical.glyph(), '\u{2551}');
}

#[test]
fn point_key_of_pattern_origin() {
    let grid = conway::frame::parse_pattern("x", 'x', '.').unwrap();
    assert!(grid.is_alive(&Point(0, 0)));
}
