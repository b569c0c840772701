use convlog::{tile_set_eq, ConvertError, Tile};

#[test]
fn tile_notation_round_trips() {
    let all = [
        "1m", "2m", "3m", "4m", "5m", "6m", "7m", "8m", "9m", "1p", "2p", "3p", "4p", "5p", "6p",
        "7p", "8p", "9p", "1s", "2s", "3s", "4s", "5s", "6s", "7s", "8s", "9s", "E", "S", "W", "N",
        "P", "F", "C", "5mr", "5pr", "5sr", "?",
    ];
    for (id, text) in all.iter().enumerate() {
        let tile = Tile::parse(text).unwrap();
        assert_eq!(tile.to_notation(), *text);
        assert_eq!(tile.to_canonical_id() as usize, id);
        assert_eq!(Tile::parse(&tile.to_notation()), Ok(tile));
    }
}

#[test]
fn tile_parse_refuses_other_text() {
    for text in ["", "m", "0m", "1x", "1mr", "5m r", "5mrr", "10m", "e", "??", "５m"] {
        assert_eq!(Tile::parse(text), Err(ConvertError::InvalidTileNotation));
    }
}

#[test]
fn tile_set_eq_ignores_order() {
    let red = Tile::parse("5mr").unwrap();
    let plain = Tile::parse("5m").unwrap();
    let one = Tile::parse("1p").unwrap();
    assert!(tile_set_eq(&[red, one], &[one, red]));
    assert!(!tile_set_eq(&[plain, one], &[red, one]));
    assert!(!tile_set_eq(&[one, one, red], &[one, red, red]));
    assert!(!tile_set_eq(&[one], &[one, one]));
    assert!(tile_set_eq(&[], &[]));
}

#[test]
fn red_fives_are_made_from_fives() {
    for (plain, red) in [("5m", "5mr"), ("5p", "5pr"), ("5s", "5sr")] {
        let five = Tile::parse(plain).unwrap();
        assert!(five.is_five());
        assert!(!five.is_red());
        let made = five.make_red();
        assert_eq!(made, Tile::parse(red).unwrap());
        assert!(made.is_red());
        assert!(made.is_five());
        assert_eq!(made.make_red(), made);
        assert!(!five.same(&made));
        assert!(made.same(&Tile::parse(red).unwrap()));
    }
    assert!(!Tile::parse("4m").unwrap().is_five());
    assert!(!Tile::parse("E").unwrap().is_five());
}

#[test]
fn the_unknown_tile_has_the_last_id() {
    assert_eq!(Tile::default(), Tile::unknown());
    assert_eq!(Tile::unknown(), Tile::parse("?").unwrap());
    assert_eq!(Tile::unknown().to_canonical_id(), 37);
    assert_eq!(Tile::parse("5mr").unwrap().to_canonical_id(), 34);
    assert_eq!(Tile::parse("5pr").unwrap().to_canonical_id(), 35);
    assert_eq!(Tile::parse("5sr").unwrap().to_canonical_id(), 36);
    assert_eq!(Tile::parse("C").unwrap().to_canonical_id(), 33);
}

#[test]
fn tiles_of_both_records_are_the_same_tiles() {
    for face in 0..34u8 {
        let from_mjlog = Tile::from_mjlog_id(face * 4 + 1, true).unwrap();
        let number = if face < 27 { (face / 9 + 1) * 10 + face % 9 + 1 } else { face + 14 };
        assert_eq!(Tile::from_tenhou_id(number as i64), Some(from_mjlog));
    }
    assert_eq!(Tile::from_tenhou_id(51), Tile::from_mjlog_id(16, true));
    assert_eq!(Tile::from_tenhou_id(52), Tile::from_mjlog_id(52, true));
    assert_eq!(Tile::from_tenhou_id(53), Tile::from_mjlog_id(88, true));
    for number in [-1, 0, 10, 20, 30, 40, 48, 50, 54, 60, i64::MAX, i64::MIN] {
        assert_eq!(Tile::from_tenhou_id(number), None);
    }
}
