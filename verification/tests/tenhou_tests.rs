use convlog::tenhou::{Discard, EndStatus, HoraDetail, Kyoku, Log, Seat, Take};
use convlog::value::{parse_json, Json};
use convlog::{
    decode_tenhou6, parse_tenhou6, tenhou6_to_lines, tenhou_to_mjai, ConvertError, Event, Outcome,
    Part, Tile,
};

const HAIPAI: [&str; 4] = [
    "[11,11,11,12,12,12,13,13,13,14,14,14,15]",
    "[21,21,21,22,22,22,23,23,23,24,24,24,25]",
    "[31,31,31,32,32,32,33,33,33,34,34,34,35]",
    "[41,42,43,44,45,46,47,51,52,53,19,29,39]",
];

fn round(meta: &str, dora: &str, ura: &str, plays: [(&str, &str); 4], result: &str) -> String {
    let mut seats = String::new();
    for (seat, (takes, discards)) in plays.iter().enumerate() {
        seats.push_str(&format!("{},{},{},", HAIPAI[seat], takes, discards));
    }
    format!("[{},[25000,25000,25000,25000],{},{},{}{}]", meta, dora, ura, seats, result)
}

fn log(disp: &str, rule: &str, rounds: &[String]) -> String {
    format!(
        "{{\"title\":[\"\",\"\"],\"name\":[\"A\",\"B\",\"C\",\"\\\"D\\\"\"],\"rule\":{{\"disp\":\"{}\"{}}},\"log\":[{}]}}",
        disp,
        rule,
        rounds.join(",")
    )
}

fn sample_round() -> String {
    round(
        "[0,0,0]",
        "[22,45,46]",
        "[11]",
        [
            ("[16,22,36]", "[15,60]"),
            ("[\"c222123\"]", "[41]"),
            ("[\"15p1551\",\"m41414141\",33]", "[31,0,60]"),
            ("[21,34,35]", "[\"r60\",\"343434a34\",60]"),
        ],
        "[\"和了\",[3000,-1000,-1000,-1000],[0,0,0,\"30符1飜1000点∀\",\"門前清自摸和(1飜)\"]]",
    )
}

fn sample() -> String {
    log("般南喰赤", ",\"aka\":1", &[sample_round()])
}

fn tile(text: &str) -> Tile {
    Tile::parse(text).unwrap()
}

fn hand(texts: [&str; 13]) -> [Tile; 13] {
    texts.map(|t| tile(t))
}

fn names() -> [String; 4] {
    ["A", "B", "C", "\"D\""].map(|t| t.to_string())
}

fn start_kyoku(bakaze: &str, kyoku: u8, honba: u8, kyotaku: u8, oya: u8) -> Event {
    Event::StartKyoku {
        bakaze: tile(bakaze),
        dora_marker: tile("2p"),
        kyoku,
        honba,
        kyotaku,
        oya,
        scores: [25000; 4],
        tehais: [
            hand(["1m", "1m", "1m", "2m", "2m", "2m", "3m", "3m", "3m", "4m", "4m", "4m", "5m"]),
            hand(["1p", "1p", "1p", "2p", "2p", "2p", "3p", "3p", "3p", "4p", "4p", "4p", "5p"]),
            hand(["1s", "1s", "1s", "2s", "2s", "2s", "3s", "3s", "3s", "4s", "4s", "4s", "5s"]),
            hand(["E", "S", "W", "N", "P", "F", "C", "5mr", "5pr", "5sr", "9m", "9p", "9s"]),
        ],
    }
}

fn sample_events() -> Vec<Event> {
    let e = tile("E");
    let s4 = tile("4s");
    vec![
        Event::StartGame { names: names(), kyoku_first: 0, aka_flag: true },
        start_kyoku("E", 1, 0, 0, 0),
        Event::Tsumo { actor: 0, pai: tile("6m") },
        Event::Dahai { actor: 0, pai: tile("5m"), tsumogiri: false },
        Event::Pon { actor: 2, target: 0, pai: tile("5m"), consumed: [tile("5m"), tile("5mr")] },
        Event::Dahai { actor: 2, pai: tile("1s"), tsumogiri: false },
        Event::Tsumo { actor: 3, pai: tile("1p") },
        Event::Reach { actor: 3 },
        Event::Dahai { actor: 3, pai: tile("1p"), tsumogiri: true },
        Event::ReachAccepted { actor: 3 },
        Event::Tsumo { actor: 0, pai: tile("2p") },
        Event::Dahai { actor: 0, pai: tile("2p"), tsumogiri: true },
        Event::Chi { actor: 1, target: 0, pai: tile("2p"), consumed: [tile("1p"), tile("3p")] },
        Event::Dahai { actor: 1, pai: e, tsumogiri: false },
        Event::Daiminkan { actor: 2, target: 1, pai: e, consumed: [e, e, e] },
        Event::Tsumo { actor: 2, pai: tile("3s") },
        Event::Dahai { actor: 2, pai: tile("3s"), tsumogiri: true },
        Event::Dora { dora_marker: tile("P") },
        Event::Tsumo { actor: 3, pai: s4 },
        Event::Ankan { actor: 3, consumed: [s4, s4, s4, s4] },
        Event::Dora { dora_marker: tile("F") },
        Event::Tsumo { actor: 3, pai: tile("5s") },
        Event::Dahai { actor: 3, pai: tile("5s"), tsumogiri: true },
        Event::Tsumo { actor: 0, pai: tile("6s") },
        Event::Hora {
            actor: 0,
            target: 0,
            ura_markers: Some(vec![tile("1m")]),
            deltas: Some([3000, -1000, -1000, -1000]),
        },
        Event::EndKyoku,
        Event::EndGame,
    ]
}

fn mismatch(part: Part, round: u32) -> ConvertError {
    ConvertError::SchemaMismatch { part, round }
}

fn one_round(plays: [(&str, &str); 4], result: &str) -> Result<Vec<Event>, ConvertError> {
    decode_tenhou6(&log("南", "", &[round("[0,0,0]", "[22,45,46]", "[]", plays, result)]))
}

#[test]
fn a_log_gives_its_events_in_order() {
    assert_eq!(decode_tenhou6(&sample()), Ok(sample_events()));
}

#[test]
fn a_log_gives_its_lines() {
    let lines = tenhou6_to_lines(&sample()).unwrap();
    assert_eq!(lines.len(), 27);
    assert_eq!(
        lines[0],
        "{\"type\":\"start_game\",\"names\":[\"A\",\"B\",\"C\",\"\\\"D\\\"\"],\"kyoku_first\":0,\"aka_flag\":true}"
    );
    assert_eq!(
        lines[4],
        "{\"type\":\"pon\",\"actor\":2,\"target\":0,\"pai\":\"5m\",\"consumed\":[\"5m\",\"5mr\"]}"
    );
    assert_eq!(
        lines[24],
        "{\"type\":\"hora\",\"actor\":0,\"target\":0,\"ura_markers\":[\"1m\"],\"deltas\":[3000,-1000,-1000,-1000]}"
    );
    assert_eq!(lines[26], "{\"type\":\"end_game\"}");
}

#[test]
fn the_rules_give_length_and_red_fives() {
    let start = |disp: &str, rule: &str| decode_tenhou6(&log(disp, rule, &[])).unwrap().remove(0);
    let game = |kyoku_first, aka_flag| Event::StartGame { names: names(), kyoku_first, aka_flag };
    assert_eq!(start("般南喰赤", ",\"aka\":1"), game(0, true));
    assert_eq!(start("般東喰赤", ",\"aka51\":1"), game(4, true));
    assert_eq!(start("東", ",\"aka52\":1,\"aka\":0"), game(4, true));
    assert_eq!(start("", ",\"aka53\":2"), game(0, true));
    assert_eq!(start("南", ""), game(0, false));
    assert_eq!(start("南", ",\"aka\":0,\"aka51\":0,\"aka52\":0,\"aka53\":0"), game(0, false));
    assert_eq!(start("南", ",\"aka\":\"1\""), game(0, false));
    assert_eq!(decode_tenhou6(&log("南", "", &[])).unwrap().len(), 2);
}

#[test]
fn rounds_follow_one_another() {
    let plays = [("[]", "[]"); 4];
    let drawn = |meta: &str| round(meta, "[22]", "[]", plays, "[\"流局\",[1500,-1500,0,0]]");
    let events =
        decode_tenhou6(&log("南", "", &[drawn("[0,0,0]"), drawn("[5,2,1]"), drawn("[15,0,3]")]))
            .unwrap();
    let ryukyoku = Event::Ryukyoku { deltas: Some([1500, -1500, 0, 0]) };
    assert_eq!(
        events,
        vec![
            Event::StartGame { names: names(), kyoku_first: 0, aka_flag: false },
            start_kyoku("E", 1, 0, 0, 0),
            ryukyoku.clone(),
            Event::EndKyoku,
            start_kyoku("S", 2, 2, 1, 1),
            ryukyoku.clone(),
            Event::EndKyoku,
            start_kyoku("N", 4, 0, 3, 3),
            ryukyoku,
            Event::EndKyoku,
            Event::EndGame,
        ]
    );
}

#[test]
fn a_round_ends_as_its_result_says() {
    let plays = [("[]", "[]"); 4];
    let end = |result: &str| {
        let mut events = one_round(plays, result).unwrap();
        events.pop();
        events.split_off(2)
    };
    assert_eq!(end("[\"流局\"]"), vec![Event::Ryukyoku { deltas: None }, Event::EndKyoku]);
    assert_eq!(end("[\"九種九牌\"]"), vec![Event::Ryukyoku { deltas: None }, Event::EndKyoku]);
    assert_eq!(
        end("[\"全員聴牌\",[0,0,0,0]]"),
        vec![Event::Ryukyoku { deltas: Some([0; 4]) }, Event::EndKyoku]
    );
    let hora = |actor, target, deltas| Event::Hora { actor, target, ura_markers: None, deltas: Some(deltas) };
    assert_eq!(
        end("[\"和了\",[-8000,8000,0,0],[1,0,1,\"x\"],[-1000,0,0,1000],[3,0,3]]"),
        vec![hora(1, 0, [-8000, 8000, 0, 0]), hora(3, 0, [-1000, 0, 0, 1000]), Event::EndKyoku]
    );
}

#[test]
fn a_result_of_another_shape_is_refused() {
    let plays = [("[]", "[]"); 4];
    for result in [
        "[]",
        "[1]",
        "\"流局\"",
        "[\"流局\",[1,2,3]]",
        "[\"流局\",[1,2,3,\"4\"]]",
        "[\"流局\",[1,2,3,2147483648]]",
        "[\"和了\"]",
        "[\"和了\",[0,0,0,0]]",
        "[\"和了\",[0,0,0,0],[0]]",
        "[\"和了\",[0,0,0,0],[4,0]]",
        "[\"和了\",[0,0,0,0],[0,-1]]",
        "[\"和了\",[0,0,0],[0,0]]",
        "[\"和了\",[0,0,0,0],[0,0],[0,0,0,0]]",
    ] {
        assert_eq!(one_round(plays, result), Err(mismatch(Part::Result, 0)), "{}", result);
    }
}

#[test]
fn calls_name_their_giver_by_the_place_of_the_letter() {
    let json = |text: &str| parse_json(text).unwrap();
    let log = Log::from_json_str(&log(
        "南",
        "",
        &[round(
            "[0,0,0]",
            "[22]",
            "[]",
            [
                ("[\"p151551\",\"15p1551\",\"1551p15\"]", "[\"k15151551\",\"15k151551\",\"1515k5115\"]"),
                ("[\"m15151551\",\"15m155115\",\"151551m15\"]", "[\"r15\",\"r60\",60,0,15]"),
                ("[\"c131415\",11]", "[\"151551a15\"]"),
                ("[]", "[]"),
            ],
            "[\"流局\"]",
        )],
    ))
    .unwrap();
    let m = tile("5m");
    let r = tile("5mr");
    let seats = &log.kyokus[0].seats;
    assert_eq!(
        seats[0].takes,
        vec![
            Take::Pon { from: 3, pai: m, consumed: [m, r] },
            Take::Pon { from: 2, pai: m, consumed: [m, r] },
            Take::Pon { from: 1, pai: m, consumed: [m, r] },
        ]
    );
    assert_eq!(
        seats[0].discards,
        vec![
            Discard::Kakan { pai: m, consumed: [m, m, r] },
            Discard::Kakan { pai: m, consumed: [m, m, r] },
            Discard::Kakan { pai: r, consumed: [m, m, m] },
        ]
    );
    assert_eq!(
        seats[1].takes,
        vec![
            Take::Daiminkan { from: 3, pai: m, consumed: [m, m, r] },
            Take::Daiminkan { from: 2, pai: m, consumed: [m, r, m] },
            Take::Daiminkan { from: 1, pai: m, consumed: [m, m, r] },
        ]
    );
    assert_eq!(
        seats[1].discards,
        vec![
            Discard::Reach { pai: m },
            Discard::ReachTsumogiri,
            Discard::Tsumogiri,
            Discard::Nothing,
            Discard::Tile { pai: m },
        ]
    );
    assert_eq!(
        seats[2].takes,
        vec![
            Take::Chi { pai: tile("3m"), consumed: [tile("4m"), tile("5m")] },
            Take::Draw { pai: tile("1m") },
        ]
    );
    assert_eq!(seats[2].discards, vec![Discard::Ankan { consumed: [m, m, r, m] }]);
    assert_eq!(log.kyokus[0].end, EndStatus::Ryukyoku { deltas: None });
    assert_eq!(json("[1,\"a\"]"), Json::List(vec![Json::Number(1), Json::Text("a".to_string())]));
}

#[test]
fn takes_of_another_shape_are_refused() {
    for take in [
        "10", "20", "48", "54", "60", "0", "-11", "1.5", "null", "true", "[11]", "\"\"", "\"11\"",
        "\"c1112\"", "\"c11121\"", "\"c1112131\"", "\"11c1213\"", "\"x111213\"", "\"c11 213\"",
        "\"c111210\"", "\"p1111\"", "\"111111p\"", "\"m111111\"", "\"1111m1111\"", "\"r11\"",
        "\"k11111111\"", "\"111111a11\"", "\"c１１１２１３\"",
    ] {
        let takes = format!("[{}]", take);
        let plays = [(takes.as_str(), "[]"), ("[]", "[]"), ("[]", "[]"), ("[]", "[]")];
        assert_eq!(one_round(plays, "[\"流局\"]"), Err(mismatch(Part::Takes, 0)), "{}", take);
    }
    let plays = [("11", "[]"), ("[]", "[]"), ("[]", "[]"), ("[]", "[]")];
    assert_eq!(one_round(plays, "[\"流局\"]"), Err(mismatch(Part::Takes, 0)));
}

#[test]
fn gifts_of_another_shape_are_refused() {
    for discard in [
        "10", "61", "-1", "1.5", "null", "\"\"", "\"r\"", "\"r1\"", "\"r111\"", "\"r10\"",
        "\"r61\"", "\"c111213\"", "\"p111111\"", "\"m11111111\"", "\"11111111k\"", "\"111111k11\"",
        "\"a11111111\"", "\"11a111111\"", "\"k111111\"", "\"111111a1x\"",
    ] {
        let discards = format!("[{}]", discard);
        let plays = [("[11]", discards.as_str()), ("[]", "[]"), ("[]", "[]"), ("[]", "[]")];
        assert_eq!(one_round(plays, "[\"流局\"]"), Err(mismatch(Part::Discards, 0)), "{}", discard);
    }
}

#[test]
fn a_round_of_another_shape_is_refused() {
    let plays = [("[]", "[]"); 4];
    let with = |meta: &str, dora: &str, ura: &str| {
        decode_tenhou6(&log("南", "", &[round(meta, dora, ura, plays, "[\"流局\"]")]))
    };
    assert!(with("[0,0,0]", "[22]", "[]").is_ok());
    for meta in ["[0,0]", "[0,0,0,0]", "[-1,0,0]", "[0,256,0]", "[0,0,\"0\"]", "0", "[16,0,0]", "[255,0,0]"] {
        assert_eq!(with(meta, "[22]", "[]"), Err(mismatch(Part::Meta, 0)), "{}", meta);
    }
    for dora in ["[]", "[10]", "22", "[\"22\"]", "[22,0]"] {
        assert_eq!(with("[0,0,0]", dora, "[]"), Err(mismatch(Part::Dora, 0)), "{}", dora);
    }
    for ura in ["[10]", "22", "null"] {
        assert_eq!(with("[0,0,0]", "[22]", ura), Err(mismatch(Part::Ura, 0)), "{}", ura);
    }
    let good = round("[0,0,0]", "[22]", "[]", plays, "[\"流局\"]");
    let scores = good.replace("[25000,25000,25000,25000]", "[25000,25000,25000]");
    assert_eq!(decode_tenhou6(&log("南", "", &[scores])), Err(mismatch(Part::Scores, 0)));
    let haipai = good.replace(HAIPAI[2], "[31,31,31,32,32,32,33,33,33,34,34,34]");
    assert_eq!(decode_tenhou6(&log("南", "", &[haipai])), Err(mismatch(Part::Haipai, 0)));
    let haipai = good.replace(HAIPAI[3], "[41,42,43,44,45,46,47,51,52,53,19,29,60]");
    assert_eq!(decode_tenhou6(&log("南", "", &[good.clone(), haipai])), Err(mismatch(Part::Haipai, 1)));
    let short = good.replacen("[0,0,0],", "", 1);
    assert_eq!(decode_tenhou6(&log("南", "", &[good.clone(), good.clone(), short])), Err(mismatch(Part::Log, 2)));
    let long = good.replacen("[0,0,0],", "[0,0,0],[0,0,0],", 1);
    assert_eq!(decode_tenhou6(&log("南", "", &[long])), Err(mismatch(Part::Log, 0)));
    assert_eq!(decode_tenhou6(&log("南", "", &["17".to_string()])), Err(mismatch(Part::Log, 0)));
}

#[test]
fn a_document_of_another_shape_is_refused() {
    for text in ["", "{", "{\"name\":}", "not json", "[1,2", "{\"a\":1}x"] {
        assert_eq!(decode_tenhou6(text), Err(mismatch(Part::Document, 0)), "{}", text);
    }
    for text in ["[]", "1", "null", "{}", "{\"name\":[\"A\",\"B\",\"C\"]}", "{\"name\":[\"A\",\"B\",\"C\",4]}", "{\"name\":\"ABCD\"}"] {
        assert_eq!(decode_tenhou6(text), Err(mismatch(Part::Names, 0)), "{}", text);
    }
    let named = "{\"name\":[\"A\",\"B\",\"C\",\"D\"]";
    for rest in ["", ",\"rule\":1", ",\"rule\":{}", ",\"rule\":{\"disp\":1}", ",\"rule\":[\"disp\"]"] {
        let text = format!("{}{}}}", named, rest);
        assert_eq!(decode_tenhou6(&text), Err(mismatch(Part::Rule, 0)), "{}", text);
    }
    for rest in ["", ",\"log\":1", ",\"log\":{}", ",\"log\":\"[]\""] {
        let text = format!("{},\"rule\":{{\"disp\":\"\"}}{}}}", named, rest);
        assert_eq!(decode_tenhou6(&text), Err(mismatch(Part::Log, 0)), "{}", text);
    }
}

#[test]
fn lists_that_do_not_fit_together_are_refused() {
    let drawn = "[\"流局\"]";
    // A seat that is never in turn holds a take.
    let plays = [("[]", "[]"), ("[]", "[]"), ("[11]", "[]"), ("[]", "[]")];
    assert_eq!(one_round(plays, drawn), Err(mismatch(Part::Takes, 0)));
    // The dealer gives without having taken.
    let plays = [("[]", "[11]"), ("[]", "[]"), ("[]", "[]"), ("[]", "[]")];
    assert_eq!(one_round(plays, drawn), Err(mismatch(Part::Takes, 0)));
    // The seat in turn has nothing to give while another seat has more to do.
    let plays = [("[11]", "[]"), ("[12]", "[]"), ("[]", "[]"), ("[]", "[]")];
    assert_eq!(one_round(plays, drawn), Err(mismatch(Part::Discards, 0)));
    // More kans than indicators.
    let plays = [("[11,12,13,14]", "[\"111111a11\",\"121212a12\",\"131313a13\"]"), ("[]", "[]"), ("[]", "[]"), ("[]", "[]")];
    assert_eq!(one_round(plays, drawn), Err(mismatch(Part::Dora, 0)));
    let plays = [("[11,12,13]", "[\"111111a11\",\"121212a12\"]"), ("[]", "[]"), ("[]", "[]"), ("[]", "[]")];
    assert_eq!(one_round(plays, drawn).unwrap().len(), 2 + 7 + 3);
}

#[test]
fn a_call_takes_the_turn() {
    let drawn = "[\"流局\"]";
    let actors = |plays| -> Vec<u8> {
        one_round(plays, drawn)
            .unwrap()
            .iter()
            .filter_map(|e| match e {
                Event::Tsumo { actor, .. } | Event::Pon { actor, .. } | Event::Chi { actor, .. } => Some(*actor),
                Event::Daiminkan { actor, .. } => Some(*actor),
                _ => None,
            })
            .collect()
    };
    // No call: the seats follow one another.
    assert_eq!(actors([("[11,15]", "[60]"), ("[12]", "[60]"), ("[13]", "[60]"), ("[14]", "[60]")]), vec![0, 1, 2, 3, 0]);
    // The seat before the dealer calls the dealer's discard.
    assert_eq!(actors([("[11,12]", "[60]"), ("[]", "[]"), ("[]", "[]"), ("[\"1111p11\"]", "[41]")]), vec![0, 3, 0]);
    // The seat across calls it for a kan and draws again.
    assert_eq!(actors([("[11]", "[60]"), ("[]", "[]"), ("[\"11m111111\",12]", "[0,60]"), ("[13]", "[]")]), vec![0, 2, 2, 3]);
    // A pon of another tile, or from another seat, is no call of this discard.
    assert_eq!(actors([("[11]", "[60]"), ("[12]", "[12]"), ("[\"p121212\"]", "[41]"), ("[\"1212p12\"]", "[]")]), vec![0, 1, 2, 3]);
    // A red five is not the plain five.
    assert_eq!(actors([("[51]", "[60]"), ("[12]", "[60]"), ("[\"15p1515\"]", "[]"), ("[]", "[]")]), vec![0, 1, 2]);
    assert_eq!(actors([("[15]", "[60]"), ("[]", "[]"), ("[\"15p1515\"]", "[]"), ("[]", "[]")]), vec![0, 2]);
}

#[test]
fn an_added_kan_waits_for_the_discard_with_its_indicator() {
    let plays = [("[11,12,13]", "[\"k11111111\",\"121212a12\",60]"), ("[]", "[]"), ("[]", "[]"), ("[]", "[]")];
    let events = one_round(plays, "[\"流局\"]").unwrap();
    let one = tile("1m");
    assert_eq!(
        events[2..events.len() - 3],
        [
            Event::Tsumo { actor: 0, pai: one },
            Event::Kakan { actor: 0, pai: one, consumed: [one, one, one] },
            Event::Tsumo { actor: 0, pai: tile("2m") },
            Event::Dora { dora_marker: tile("P") },
            Event::Ankan { actor: 0, consumed: [tile("2m"); 4] },
            Event::Dora { dora_marker: tile("F") },
            Event::Tsumo { actor: 0, pai: tile("3m") },
            Event::Dahai { actor: 0, pai: tile("3m"), tsumogiri: true },
        ]
    );
}

#[test]
fn a_reach_that_is_won_on_is_not_accepted() {
    let plays = [("[11]", "[\"r11\"]"), ("[]", "[]"), ("[]", "[]"), ("[]", "[]")];
    let events = one_round(plays, "[\"和了\",[-1000,1000,0,0],[1,0,1]]").unwrap();
    assert!(events.contains(&Event::Reach { actor: 0 }));
    assert!(!events.contains(&Event::ReachAccepted { actor: 0 }));
    let plays = [("[11]", "[\"r11\"]"), ("[12]", "[]"), ("[]", "[]"), ("[]", "[]")];
    let events = one_round(plays, "[\"和了\",[-1000,1000,0,0],[1,1,1]]").unwrap();
    assert_eq!(events[5], Event::ReachAccepted { actor: 0 });
    assert_eq!(events[6], Event::Tsumo { actor: 1, pai: tile("2m") });
}

#[test]
fn a_log_converts_as_its_text_does() {
    let e = tile("E");
    let seat = |takes: Vec<Take>, discards: Vec<Discard>| Seat { haipai: [e; 13], takes, discards };
    let log = Log {
        names: names(),
        kyoku_first: 4,
        aka: false,
        kyokus: vec![Kyoku {
            kyoku: 6,
            honba: 1,
            kyotaku: 2,
            scores: [1, 2, 3, 4],
            dora_indicators: vec![e],
            ura_indicators: vec![],
            seats: [
                seat(vec![], vec![]),
                seat(vec![], vec![]),
                seat(vec![Take::Draw { pai: e }], vec![Discard::Tsumogiri]),
                seat(vec![Take::Draw { pai: e }], vec![]),
            ],
            end: EndStatus::Hora { details: vec![HoraDetail { who: 3, target: 3, deltas: [0; 4] }] },
        }],
    };
    assert_eq!(
        tenhou_to_mjai(&log),
        Ok(vec![
            Event::StartGame { names: names(), kyoku_first: 4, aka_flag: false },
            Event::StartKyoku {
                bakaze: tile("S"),
                dora_marker: e,
                kyoku: 3,
                honba: 1,
                kyotaku: 2,
                oya: 2,
                scores: [1, 2, 3, 4],
                tehais: [[e; 13]; 4],
            },
            Event::Tsumo { actor: 2, pai: e },
            Event::Dahai { actor: 2, pai: e, tsumogiri: true },
            Event::Tsumo { actor: 3, pai: e },
            Event::Hora { actor: 3, target: 3, ura_markers: None, deltas: Some([0; 4]) },
            Event::EndKyoku,
            Event::EndGame,
        ])
    );
    let mut wrong = log.clone();
    wrong.kyokus[0].kyoku = 16;
    assert_eq!(tenhou_to_mjai(&wrong), Err(mismatch(Part::Meta, 0)));
    let mut wrong = log;
    wrong.kyokus[0].dora_indicators.clear();
    assert_eq!(tenhou_to_mjai(&wrong), Err(mismatch(Part::Dora, 0)));
}

#[test]
fn a_json_document_is_read_as_plain_values() {
    let j = parse_json("{\"b\":[1,-2,3.5,true,null,\"x\\ny\",{}],\"a\":18446744073709551615}").unwrap();
    assert_eq!(j.field("a"), Some(&Json::Real));
    assert_eq!(j.field("c"), None);
    assert_eq!(
        j.field("b").unwrap().items().unwrap(),
        &vec![
            Json::Number(1),
            Json::Number(-2),
            Json::Real,
            Json::Bool(true),
            Json::Null,
            Json::Text("x\ny".to_string()),
            Json::Object(vec![]),
        ]
    );
    assert_eq!(j.items(), None);
    assert_eq!(j.text(), None);
    assert_eq!(Json::Text("t".to_string()).text(), Some(&"t".to_string()));
    assert_eq!(Json::Number(7).number(), Some(7));
    assert_eq!(parse_json("{"), None);
}

#[test]
fn batch_isolation_of_logs() {
    let records = vec![Some(sample()), Some("{\"name\":".to_string()), Some(sample()), None];
    let outcomes = parse_tenhou6(&records);
    assert_eq!(outcomes.len(), 4);
    assert_eq!(outcomes[0], Outcome::Lines(tenhou6_to_lines(&sample()).unwrap()));
    assert_eq!(outcomes[1], Outcome::Failed(mismatch(Part::Document, 0)));
    assert_eq!(outcomes[2], outcomes[0]);
    assert_eq!(outcomes[3], Outcome::Missing);
    assert_eq!(
        mismatch(Part::Takes, 3).message(),
        "the log is malformed: takes, round 3"
    );
}
