use conway::Point;

#[test]
fn test_add() {
    assert_eq!(Point(1, 1) + Point(4, 9), Point(5, 10));
    assert_eq!(Point(-3, 5) + Point(-5, -6), Point(-8, -1));
}

#[test]
fn test_sub() {
    assert_eq!(Point(1, 1) - Point(4, 9), Point(-3, -8));
    assert_eq!(Point(-3, 5) - Point(-5, -6), Point(2, 11));
}

#[test]
fn point_test_from_str() {
    assert_eq!("(-4, 9)".parse::<Point>().unwrap(), Point(-4, 9));
    assert!("-4, 9)".parse::<Point>().is_err());
    assert!("(-4, 9".parse::<Point>().is_err());
    assert!("(x, 9)".parse::<Point>().is_err());
    assert!("(4.1, 9)".parse::<Point>().is_err());
}

#[test]
fn point_parse_trims_whitespace() {
    assert_eq!("  ( 12 ,  -7 )  ".parse::<Point>().unwrap(), Point(12, -7));
}

#[test]
fn point_parse_accepts_plus_sign() {
    assert_eq!("(+4, 9)".parse::<Point>().unwrap(), Point(4, 9));
    assert_eq!("(+0, -0)".parse::<Point>().unwrap(), Point(0, 0));
}

#[test]
fn point_parse_error_kind() {
    let err = Point::parse_text("nope").unwrap_err();
    assert!(matches!(err, conway::AppError::ParsePoint(_)));
}

#[test]
fn point_origin_and_default() {
    assert_eq!(Point::origin(), Point(0, 0));
    let d: Point = Default::default();
    assert_eq!(d, Point(0, 0));
}
