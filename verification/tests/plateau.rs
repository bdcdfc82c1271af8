use mars_rover_technical_challenge::{OutOfPlataeuError, ParsePlateauError, Plateau};

#[test]
fn plateau_can_be_parsed() {
    assert_eq!("4 2".parse(), Ok(Plateau::new(4, 2)));
}

#[test]
fn plateau_parse_reports_the_first_field_that_fails() {
    assert_eq!(Plateau::parse(""), Err(ParsePlateauError::MissingUpperX));
    assert_eq!(Plateau::parse(" \t"), Err(ParsePlateauError::MissingUpperX));
    assert_eq!(Plateau::parse("a 2"), Err(ParsePlateauError::UnparsableUpperX));
    assert_eq!(Plateau::parse("a"), Err(ParsePlateauError::UnparsableUpperX));
    assert_eq!(Plateau::parse("a b"), Err(ParsePlateauError::UnparsableUpperX));
    assert_eq!(Plateau::parse("4"), Err(ParsePlateauError::MissingUpperY));
    assert_eq!(Plateau::parse("4 b"), Err(ParsePlateauError::UnparsableUpperY));
    assert_eq!(Plateau::parse("4 2.5"), Err(ParsePlateauError::UnparsableUpperY));
    assert_eq!(Plateau::parse("40000 2"), Err(ParsePlateauError::UnparsableUpperX));
}

#[test]
fn plateau_parse_ignores_what_follows_the_corner() {
    assert_eq!(Plateau::parse("4 2 7"), Ok(Plateau::new(4, 2)));
    assert_eq!(Plateau::parse("4 2 x y z"), Ok(Plateau::new(4, 2)));
    assert_eq!(Plateau::parse("  +4\t\t-2  "), Ok(Plateau::new(4, -2)));
}

#[test]
fn plateau_getters_give_the_corner() {
    let plateau = Plateau::new(10, 5);
    assert_eq!(plateau.upper_x(), 10);
    assert_eq!(plateau.upper_y(), 5);
}

#[test]
fn the_edges_belong_to_the_plateau() {
    let plateau = Plateau::new(10, 5);
    for y in 0..=5 {
        assert_eq!(plateau.confirm_within(0, y), Ok(()));
        assert_eq!(plateau.confirm_within(10, y), Ok(()));
        assert!(plateau.contains(0, y) && plateau.contains(10, y));
    }
    for x in 0..=10 {
        assert_eq!(plateau.confirm_within(x, 0), Ok(()));
        assert_eq!(plateau.confirm_within(x, 5), Ok(()));
        assert!(plateau.contains(x, 0) && plateau.contains(x, 5));
    }
}

#[test]
fn one_step_beyond_an_edge_is_outside() {
    let plateau = Plateau::new(10, 5);
    assert_eq!(
        plateau.confirm_within(-1, 3),
        Err(OutOfPlataeuError { x: -1, y: 3, upper_x: 10, upper_y: 5 })
    );
    assert_eq!(
        plateau.confirm_within(11, 3),
        Err(OutOfPlataeuError { x: 11, y: 3, upper_x: 10, upper_y: 5 })
    );
    assert_eq!(
        plateau.confirm_within(4, -1),
        Err(OutOfPlataeuError { x: 4, y: -1, upper_x: 10, upper_y: 5 })
    );
    assert_eq!(
        plateau.confirm_within(4, 6),
        Err(OutOfPlataeuError { x: 4, y: 6, upper_x: 10, upper_y: 5 })
    );
    assert!(!plateau.contains(-1, 3));
    assert!(!plateau.contains(11, 3));
    assert!(!plateau.contains(4, -1));
    assert!(!plateau.contains(4, 6));
}

#[test]
fn contains_agrees_with_the_rectangle() {
    let plateau = Plateau::new(3, 2);
    for x in -2..=5 {
        for y in -2..=4 {
            let inside = 0 <= x && x <= 3 && 0 <= y && y <= 2;
            assert_eq!(plateau.contains(x, y), inside);
            assert_eq!(plateau.confirm_within(x, y).is_ok(), inside);
        }
    }
}

#[test]
fn a_plateau_with_a_negative_corner_holds_no_point() {
    let plateau = Plateau::new(-1, 5);
    assert!(!plateau.contains(0, 0));
    assert_eq!(
        plateau.confirm_within(0, 0),
        Err(OutOfPlataeuError { x: 0, y: 0, upper_x: -1, upper_y: 5 })
    );
}
