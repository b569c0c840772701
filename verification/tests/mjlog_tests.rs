use convlog::mjlog::{
    check_if_owari, parse_agari, parse_dora, parse_game_type, parse_init_others,
    parse_init_scores, parse_init_tehais, parse_mjloggm_version, parse_n, parse_names,
    parse_reach, parse_ryuukyoku,
};
use convlog::{
    translate_mjlog_tile, Attr, Attribute, ConvertError, Element, MeldKind, Tag, Tile,
};

fn element(name: &str, attributes: &[(&str, &str)]) -> Element {
    Element {
        name: name.to_string(),
        attributes: attributes
            .iter()
            .map(|(key, value)| Attribute::Pair { key: key.to_string(), value: value.to_string() })
            .collect(),
    }
}

fn tile(text: &str) -> Tile {
    Tile::parse(text).unwrap()
}

fn tiles(texts: &[&str]) -> Vec<Tile> {
    texts.iter().map(|t| tile(t)).collect()
}

fn missing(tag: Tag, attribute: Attr) -> ConvertError {
    ConvertError::MissingAttribute { tag, attribute }
}

fn malformed(tag: Tag, attribute: Attr) -> ConvertError {
    ConvertError::MalformedValue { tag, attribute }
}

#[test]
fn tiles_are_translated_by_face_and_copy() {
    assert_eq!(translate_mjlog_tile(0, true), Some(tile("1m")));
    assert_eq!(translate_mjlog_tile(3, true), Some(tile("1m")));
    assert_eq!(translate_mjlog_tile(16, true), Some(tile("5mr")));
    assert_eq!(translate_mjlog_tile(16, false), Some(tile("5m")));
    assert_eq!(translate_mjlog_tile(17, true), Some(tile("5m")));
    assert_eq!(translate_mjlog_tile(52, true), Some(tile("5pr")));
    assert_eq!(translate_mjlog_tile(88, true), Some(tile("5sr")));
    assert_eq!(translate_mjlog_tile(20, true), Some(tile("6m")));
    assert_eq!(translate_mjlog_tile(108, true), Some(tile("E")));
    assert_eq!(translate_mjlog_tile(135, true), Some(tile("C")));
    assert_eq!(translate_mjlog_tile(136, true), Some(tile("?")));
    assert_eq!(translate_mjlog_tile(139, false), Some(tile("?")));
    assert_eq!(translate_mjlog_tile(140, true), None);
    assert_eq!(translate_mjlog_tile(255, false), None);
}

#[test]
fn version_is_the_value_of_ver() {
    assert_eq!(parse_mjloggm_version(&element("mjloggm", &[("ver", "2.3")])), Ok("2.3".to_string()));
    assert_eq!(
        parse_mjloggm_version(&element("mjloggm", &[])),
        Err(missing(Tag::Mjloggm, Attr::Ver))
    );
}

#[test]
fn game_type_gives_the_two_flags() {
    let go = |value: &str| parse_game_type(&element("GO", &[("type", value), ("lobby", "0")]));
    assert_eq!(go("0"), Ok((true, false)));
    assert_eq!(go("169"), Ok((true, false)));
    assert_eq!(go("2"), Ok((false, false)));
    assert_eq!(go("171"), Ok((false, false)));
    assert_eq!(go("16"), Ok((true, true)));
    assert_eq!(go("18"), Ok((false, true)));
    assert_eq!(go("65535"), Ok((false, true)));
    assert_eq!(go("65536"), Err(malformed(Tag::Go, Attr::Type)));
    assert_eq!(go("x"), Err(malformed(Tag::Go, Attr::Type)));
    assert_eq!(parse_game_type(&element("GO", &[])), Err(missing(Tag::Go, Attr::Type)));
}

#[test]
fn names_are_percent_decoded() {
    let un = element("UN", &[("n0", "%E3%81%82"), ("n1", "B%20b"), ("n2", ""), ("n3", "a%2Bb+c")]);
    assert_eq!(
        parse_names(&un),
        Ok(("あ".to_string(), "B b".to_string(), "".to_string(), "a+b+c".to_string()))
    );
}

#[test]
fn names_fail_where_one_is_absent_or_no_text() {
    let un = element("UN", &[("n0", "a"), ("n1", "b"), ("n3", "d")]);
    assert_eq!(parse_names(&un), Err(missing(Tag::Un, Attr::N2)));
    let un = element("UN", &[("n0", "a"), ("n1", "%FF"), ("n2", "c"), ("n3", "d")]);
    assert_eq!(parse_names(&un), Err(malformed(Tag::Un, Attr::N1)));
}

#[test]
fn init_others_reads_seed_and_dealer() {
    let init = element("INIT", &[("seed", "5,2,1,3,4,52"), ("oya", "1")]);
    assert_eq!(parse_init_others(&init, true), Ok((tile("S"), tile("5pr"), 2, 2, 1, 1)));
    assert_eq!(parse_init_others(&init, false), Ok((tile("S"), tile("5p"), 2, 2, 1, 1)));
    let init = element("INIT", &[("seed", "15,0,0,0,0,135"), ("oya", "3")]);
    assert_eq!(parse_init_others(&init, true), Ok((tile("N"), tile("C"), 4, 0, 0, 3)));
    let init = element("INIT", &[("seed", "16,9,8,0,0,0,77"), ("oya", "0")]);
    assert_eq!(parse_init_others(&init, true), Ok((tile("E"), tile("1m"), 1, 9, 8, 0)));
}

#[test]
fn init_others_fails_on_a_bad_seed_or_dealer() {
    let bad_seed = Err(malformed(Tag::Init, Attr::Seed));
    for seed in ["", "1,2,3,4,5", "1,2,3,4,5,140", "1,2,3,4,5,x", "1,2,3,4,5,6,", "256,0,0,0,0,0"] {
        let init = element("INIT", &[("seed", seed), ("oya", "0")]);
        assert_eq!(parse_init_others(&init, true), bad_seed, "{:?}", seed);
    }
    let init = element("INIT", &[("oya", "0")]);
    assert_eq!(parse_init_others(&init, true), Err(missing(Tag::Init, Attr::Seed)));
    let init = element("INIT", &[("seed", "0,0,0,0,0,0")]);
    assert_eq!(parse_init_others(&init, true), Err(missing(Tag::Init, Attr::Oya)));
    let init = element("INIT", &[("seed", "0,0,0,0,0,0"), ("oya", "-1")]);
    assert_eq!(parse_init_others(&init, true), Err(malformed(Tag::Init, Attr::Oya)));
}

#[test]
fn init_scores_are_given_in_points() {
    let init = element("INIT", &[("ten", "250,240,-5,0")]);
    assert_eq!(parse_init_scores(&init), Ok([25000, 24000, -500, 0]));
    for ten in ["250,250,250", "250,250,250,250,250", "250,250,250,x", "", "21474837,0,0,0"] {
        let init = element("INIT", &[("ten", ten)]);
        assert_eq!(parse_init_scores(&init), Err(malformed(Tag::Init, Attr::Ten)), "{:?}", ten);
    }
    let init = element("INIT", &[("ten", "21474836,-21474836,0,0")]);
    assert_eq!(parse_init_scores(&init), Ok([2147483600, -2147483600, 0, 0]));
    assert_eq!(parse_init_scores(&element("INIT", &[])), Err(missing(Tag::Init, Attr::Ten)));
}

#[test]
fn init_tehais_keep_the_order_dealt() {
    let init = element(
        "INIT",
        &[
            ("hai0", "12,0,16,4,8,1,2,3,5,6,7,9,10"),
            ("hai1", "16,52,88,108,112,116,120,124,128,132,135,20,24"),
            ("hai3", "136,137,138,139,136,137,138,139,136,137,138,139,136"),
        ],
    );
    let hands = parse_init_tehais(&init, true).unwrap();
    assert_eq!(
        hands[0].to_vec(),
        tiles(&["4m", "1m", "5mr", "2m", "3m", "1m", "1m", "1m", "2m", "2m", "2m", "3m", "3m"])
    );
    assert_eq!(
        hands[1].to_vec(),
        tiles(&["5mr", "5pr", "5sr", "E", "S", "W", "N", "P", "F", "C", "C", "6m", "7m"])
    );
    assert_eq!(hands[2].to_vec(), vec![tile("?"); 13]);
    assert_eq!(hands[3].to_vec(), vec![tile("?"); 13]);
    let plain = parse_init_tehais(&init, false).unwrap();
    assert_eq!(plain[1][0], tile("5m"));
}

#[test]
fn init_tehais_fail_on_a_hand_of_other_than_thirteen() {
    let init = element("INIT", &[("hai0", "0,1,2,3,4,5,6,7,8,9,10,11")]);
    assert_eq!(parse_init_tehais(&init, true), Err(malformed(Tag::Init, Attr::Hai0)));
    let init = element("INIT", &[("hai2", "0,1,2,3,4,5,6,7,8,9,10,11,12,13")]);
    assert_eq!(parse_init_tehais(&init, true), Err(malformed(Tag::Init, Attr::Hai2)));
    let init = element("INIT", &[("hai3", "0,1,2,3,4,5,6,7,8,9,10,11,140")]);
    assert_eq!(parse_init_tehais(&init, true), Err(malformed(Tag::Init, Attr::Hai3)));
}

#[test]
fn dora_is_the_tile_of_hai() {
    assert_eq!(parse_dora(&element("DORA", &[("hai", "88")]), true), Ok(tile("5sr")));
    assert_eq!(parse_dora(&element("DORA", &[("hai", "88")]), false), Ok(tile("5s")));
    assert_eq!(
        parse_dora(&element("DORA", &[("hai", "140")]), true),
        Err(malformed(Tag::Dora, Attr::Hai))
    );
    assert_eq!(parse_dora(&element("DORA", &[]), true), Err(missing(Tag::Dora, Attr::Hai)));
}

#[test]
fn melds_give_kind_seats_and_tiles() {
    let n = |who: &str, m: &str| parse_n(&element("N", &[("who", who), ("m", m)]), true);
    assert_eq!(n("2", "7247"), Ok((MeldKind::Chi, 2, 1, tiles(&["4m", "5mr", "3m"]))));
    assert_eq!(n("3", "42569"), Ok((MeldKind::Pon, 3, 0, tiles(&["E", "E", "E"]))));
    assert_eq!(n("0", "41553"), Ok((MeldKind::Kakan, 0, 1, tiles(&["E", "E", "E", "E"]))));
    assert_eq!(n("1", "4096"), Ok((MeldKind::Ankan, 1, 1, tiles(&["5m", "5m"]))));
    assert_eq!(n("1", "4098"), Ok((MeldKind::Daiminkan, 1, 3, tiles(&["5mr", "5m", "5m", "5m"]))));
    assert_eq!(n("1", "4865"), Ok((MeldKind::Daiminkan, 1, 2, tiles(&["5m", "5mr", "5m", "5m"]))));
    assert_eq!(n("1", "4864"), Ok((MeldKind::Ankan, 1, 1, tiles(&["5mr", "5m"]))));
    assert_eq!(n("255", "4099"), Ok((MeldKind::Daiminkan, 255, 2, tiles(&["5mr", "5m", "5m", "5m"]))));
}

#[test]
fn melds_fail_on_what_is_no_tile() {
    let n = |who: &str, m: &str| parse_n(&element("N", &[("who", who), ("m", m)]), true);
    assert_eq!(n("0", "65535"), Ok((MeldKind::Chi, 0, 3, tiles(&["E", "S", "W"]))));
    assert_eq!(n("0", "65528"), Err(malformed(Tag::N, Attr::M)));
    assert_eq!(n("0", "65280"), Err(malformed(Tag::N, Attr::M)));
    assert_eq!(n("x", "4"), Err(malformed(Tag::N, Attr::Who)));
    assert_eq!(n("0", "65536"), Err(malformed(Tag::N, Attr::M)));
    assert_eq!(parse_n(&element("N", &[("m", "4")]), true), Err(missing(Tag::N, Attr::Who)));
    assert_eq!(parse_n(&element("N", &[("who", "0")]), true), Err(missing(Tag::N, Attr::M)));
}

#[test]
fn reach_gives_seat_and_step() {
    assert_eq!(parse_reach(&element("REACH", &[("who", "3"), ("step", "1")])), Ok((3, 1)));
    assert_eq!(
        parse_reach(&element("REACH", &[("who", "3"), ("ten", "1,2,3,4"), ("step", "2")])),
        Ok((3, 2))
    );
    assert_eq!(
        parse_reach(&element("REACH", &[("step", "2")])),
        Err(missing(Tag::Reach, Attr::Who))
    );
    assert_eq!(
        parse_reach(&element("REACH", &[("who", "1")])),
        Err(missing(Tag::Reach, Attr::Step))
    );
    assert_eq!(
        parse_reach(&element("REACH", &[("who", "1"), ("step", "")])),
        Err(malformed(Tag::Reach, Attr::Step))
    );
}

#[test]
fn agari_gives_seats_markers_and_deltas() {
    let agari = element(
        "AGARI",
        &[
            ("who", "0"),
            ("fromWho", "1"),
            ("doraHaiUra", "16,136"),
            ("sc", "240,20,250,-10,250,0,250,0"),
        ],
    );
    assert_eq!(
        parse_agari(&agari, true),
        Ok((0, 1, Some(tiles(&["5mr", "?"])), Some([2000, -1000, 0, 0])))
    );
    let agari = element("AGARI", &[("who", "2"), ("fromWho", "2")]);
    assert_eq!(parse_agari(&agari, true), Ok((2, 2, None, None)));
}

#[test]
fn agari_fails_on_what_it_cannot_read() {
    let agari = element("AGARI", &[("fromWho", "1")]);
    assert_eq!(parse_agari(&agari, true), Err(missing(Tag::Agari, Attr::Who)));
    let agari = element("AGARI", &[("who", "1")]);
    assert_eq!(parse_agari(&agari, true), Err(missing(Tag::Agari, Attr::FromWho)));
    let agari = element("AGARI", &[("who", "1"), ("fromWho", "1"), ("doraHaiUra", "")]);
    assert_eq!(parse_agari(&agari, true), Err(malformed(Tag::Agari, Attr::DoraHaiUra)));
    let agari = element("AGARI", &[("who", "1"), ("fromWho", "1"), ("sc", "0,x")]);
    assert_eq!(parse_agari(&agari, true), Err(malformed(Tag::Agari, Attr::Sc)));
}

#[test]
fn deltas_are_the_second_of_each_pair() {
    let ryuukyoku = |sc: &str| parse_ryuukyoku(&element("RYUUKYOKU", &[("sc", sc)]));
    assert_eq!(ryuukyoku("250,15,250,-15,250,30,250,-30"), Ok(Some([1500, -1500, 3000, -3000])));
    // What stands in the places of the scores is not read.
    assert_eq!(ryuukyoku("x,1,,2,?,3,-,4"), Ok(Some([100, 200, 300, 400])));
    assert_eq!(ryuukyoku("x,1,,2,?,3,-,4,"), Ok(Some([100, 200, 300, 400])));
    // Other than four changes say nothing.
    assert_eq!(ryuukyoku("250,15,250,-15,250,30"), Ok(None));
    assert_eq!(ryuukyoku("250,1,250,2,250,3,250,4,250,5"), Ok(None));
    assert_eq!(ryuukyoku(""), Ok(None));
    assert_eq!(ryuukyoku("250"), Ok(None));
    assert_eq!(ryuukyoku("250,"), Err(malformed(Tag::Ryuukyoku, Attr::Sc)));
    assert_eq!(ryuukyoku("250,21474837"), Err(malformed(Tag::Ryuukyoku, Attr::Sc)));
    assert_eq!(parse_ryuukyoku(&element("RYUUKYOKU", &[])), Ok(None));
}

#[test]
fn owari_is_told_by_its_presence() {
    assert_eq!(check_if_owari(&element("AGARI", &[("owari", "")])), Ok(true));
    assert_eq!(check_if_owari(&element("AGARI", &[("who", "1")])), Ok(false));
    // The value does not matter, not even one that cannot be read.
    let unreadable = |name: &str| Element {
        name: name.to_string(),
        attributes: vec![
            Attribute::Undecodable { key: "sc".to_string() },
            Attribute::Undecodable { key: "owari".to_string() },
            Attribute::Malformed,
        ],
    };
    assert_eq!(check_if_owari(&unreadable("AGARI")), Ok(true));
    assert_eq!(check_if_owari(&unreadable("RYUUKYOKU")), Ok(true));
    // What cannot be told fails, in the name of the element.
    let broken = |name: &str| Element {
        name: name.to_string(),
        attributes: vec![
            Attribute::Malformed,
            Attribute::Pair { key: "owari".to_string(), value: "".to_string() },
        ],
    };
    assert_eq!(check_if_owari(&broken("AGARI")), Err(malformed(Tag::Agari, Attr::Owari)));
    assert_eq!(check_if_owari(&broken("RYUUKYOKU")), Err(malformed(Tag::Ryuukyoku, Attr::Owari)));
    let e = unreadable("AGARI");
    assert_eq!(e.has_attribute(Tag::Agari, Attr::Sc), Ok(true));
    assert_eq!(e.has_attribute(Tag::Agari, Attr::Who), Err(malformed(Tag::Agari, Attr::Who)));
    assert_eq!(element("AGARI", &[]).has_attribute(Tag::Agari, Attr::Who), Ok(false));
}

#[test]
fn the_first_attribute_with_the_key_counts() {
    let e = element("DORA", &[("x", "1"), ("hai", "4"), ("hai", "8")]);
    assert_eq!(parse_dora(&e, true), Ok(tile("2m")));
}

#[test]
fn a_search_stops_at_what_is_no_attribute() {
    let e = Element {
        name: "REACH".to_string(),
        attributes: vec![
            Attribute::Pair { key: "who".to_string(), value: "1".to_string() },
            Attribute::Malformed,
            Attribute::Pair { key: "step".to_string(), value: "1".to_string() },
        ],
    };
    assert_eq!(parse_reach(&e), Err(malformed(Tag::Reach, Attr::Step)));
    let e = Element {
        name: "REACH".to_string(),
        attributes: vec![
            Attribute::Undecodable { key: "x".to_string() },
            Attribute::Pair { key: "who".to_string(), value: "1".to_string() },
            Attribute::Undecodable { key: "step".to_string() },
        ],
    };
    assert_eq!(parse_reach(&e), Err(malformed(Tag::Reach, Attr::Step)));
    assert_eq!(e.attribute(Tag::Reach, Attr::Who), Ok(Some(&"1".to_string())));
    assert_eq!(e.attribute(Tag::Reach, Attr::Sc), Ok(None));
}
