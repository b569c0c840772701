use convlog::json::{json_quote, to_json_lines};
use convlog::text::decimal_string;
use convlog::{
    decode_mjlog, decode_nodes, mjlog_to_lines, parse_mjlog, Attr, Attribute, ConvertError,
    Conversion, Element, Event, Outcome, Tag, Tile, XmlNode,
};

const RECORD: &str = "<mjloggm ver=\"2.3\"><SHUFFLE seed=\"x\" ref=\"\"/>\
<GO type=\"169\" lobby=\"0\"/>\
<UN n0=\"%E3%81%82\" n1=\"B%20b\" n2=\"C\" n3=\"%22D%22\" dan=\"1,2,3,4\" sx=\"M,M,M,M\"/>\
<TAIKYOKU oya=\"0\"/>\
<INIT seed=\"5,2,1,3,4,52\" ten=\"250,240,260,250\" oya=\"1\" \
hai0=\"0,1,2,3,4,5,6,7,8,9,10,11,12\" \
hai1=\"16,52,88,108,112,116,120,124,128,132,135,20,24\" \
hai2=\"36,37,38,39,40,41,42,43,44,45,46,47,48\" \
hai3=\"72,73,74,75,76,77,78,79,80,81,82,83,84\"/>\
<T16/><D16/><U17/><E20/><N who=\"2\" m=\"7247\" />\
<REACH who=\"0\" step=\"1\"/><D30/><REACH who=\"0\" ten=\"240,250,250,250\" step=\"2\"/>\
<DORA hai=\"88\" />\
<AGARI ba=\"0,1\" who=\"0\" fromWho=\"1\" doraHaiUra=\"16,136\" \
sc=\"240,20,250,-10,250,0,250,0\" owari=\"1,2,3,4\" />\
</mjloggm>";

fn tile(text: &str) -> Tile {
    Tile::parse(text).unwrap()
}

fn hand(texts: [&str; 13]) -> [Tile; 13] {
    texts.map(|t| tile(t))
}

fn names(texts: [&str; 4]) -> [String; 4] {
    texts.map(|t| t.to_string())
}

fn record_events() -> Vec<Event> {
    vec![
        Event::StartGame { names: names(["あ", "B b", "C", "\"D\""]), kyoku_first: 0, aka_flag: true },
        Event::StartKyoku {
            bakaze: tile("S"),
            dora_marker: tile("5pr"),
            kyoku: 2,
            honba: 2,
            kyotaku: 1,
            oya: 1,
            scores: [25000, 24000, 26000, 25000],
            tehais: [
                hand(["1m", "1m", "1m", "1m", "2m", "2m", "2m", "2m", "3m", "3m", "3m", "3m", "4m"]),
                hand(["5mr", "5pr", "5sr", "E", "S", "W", "N", "P", "F", "C", "C", "6m", "7m"]),
                hand(["1p", "1p", "1p", "1p", "2p", "2p", "2p", "2p", "3p", "3p", "3p", "3p", "4p"]),
                hand(["1s", "1s", "1s", "1s", "2s", "2s", "2s", "2s", "3s", "3s", "3s", "3s", "4s"]),
            ],
        },
        Event::Tsumo { actor: 0, pai: tile("5mr") },
        Event::Dahai { actor: 0, pai: tile("5mr"), tsumogiri: true },
        Event::Tsumo { actor: 1, pai: tile("5m") },
        Event::Dahai { actor: 1, pai: tile("6m"), tsumogiri: false },
        Event::Chi { actor: 2, target: 1, pai: tile("4m"), consumed: [tile("5mr"), tile("3m")] },
        Event::Reach { actor: 0 },
        Event::Dahai { actor: 0, pai: tile("8m"), tsumogiri: false },
        Event::ReachAccepted { actor: 0 },
        Event::Dora { dora_marker: tile("5sr") },
        Event::Hora {
            actor: 0,
            target: 1,
            ura_markers: Some(vec![tile("5mr"), tile("?")]),
            deltas: Some([2000, -1000, 0, 0]),
        },
        Event::EndKyoku,
        Event::EndGame,
    ]
}

fn events_of(body: &str) -> Vec<Event> {
    decode_mjlog(body).unwrap()
}

#[test]
fn a_record_gives_its_events_in_order() {
    assert_eq!(decode_mjlog(RECORD), Ok(record_events()));
}

#[test]
fn a_record_gives_its_lines() {
    let lines = mjlog_to_lines(RECORD).unwrap();
    let expected = [
        "{\"type\":\"start_game\",\"names\":[\"あ\",\"B b\",\"C\",\"\\\"D\\\"\"],\"kyoku_first\":0,\"aka_flag\":true}",
        "{\"type\":\"start_kyoku\",\"bakaze\":\"S\",\"dora_marker\":\"5pr\",\"kyoku\":2,\"honba\":2,\"kyotaku\":1,\"oya\":1,\"scores\":[25000,24000,26000,25000],\"tehais\":[[\"1m\",\"1m\",\"1m\",\"1m\",\"2m\",\"2m\",\"2m\",\"2m\",\"3m\",\"3m\",\"3m\",\"3m\",\"4m\"],[\"5mr\",\"5pr\",\"5sr\",\"E\",\"S\",\"W\",\"N\",\"P\",\"F\",\"C\",\"C\",\"6m\",\"7m\"],[\"1p\",\"1p\",\"1p\",\"1p\",\"2p\",\"2p\",\"2p\",\"2p\",\"3p\",\"3p\",\"3p\",\"3p\",\"4p\"],[\"1s\",\"1s\",\"1s\",\"1s\",\"2s\",\"2s\",\"2s\",\"2s\",\"3s\",\"3s\",\"3s\",\"3s\",\"4s\"]]}",
        "{\"type\":\"tsumo\",\"actor\":0,\"pai\":\"5mr\"}",
        "{\"type\":\"dahai\",\"actor\":0,\"pai\":\"5mr\",\"tsumogiri\":true}",
        "{\"type\":\"tsumo\",\"actor\":1,\"pai\":\"5m\"}",
        "{\"type\":\"dahai\",\"actor\":1,\"pai\":\"6m\",\"tsumogiri\":false}",
        "{\"type\":\"chi\",\"actor\":2,\"target\":1,\"pai\":\"4m\",\"consumed\":[\"5mr\",\"3m\"]}",
        "{\"type\":\"reach\",\"actor\":0}",
        "{\"type\":\"dahai\",\"actor\":0,\"pai\":\"8m\",\"tsumogiri\":false}",
        "{\"type\":\"reach_accepted\",\"actor\":0}",
        "{\"type\":\"dora\",\"dora_marker\":\"5sr\"}",
        "{\"type\":\"hora\",\"actor\":0,\"target\":1,\"ura_markers\":[\"5mr\",\"?\"],\"deltas\":[2000,-1000,0,0]}",
        "{\"type\":\"end_kyoku\"}",
        "{\"type\":\"end_game\"}",
    ];
    assert_eq!(lines, expected);
}

#[test]
fn lines_are_json_that_reads_back() {
    for line in mjlog_to_lines(RECORD).unwrap() {
        let value: serde_json::Value = serde_json::from_str(&line).unwrap();
        let object = value.as_object().unwrap();
        assert!(object.get("type").unwrap().is_string());
        assert!(object.values().all(|v| !v.is_null()));
        assert!(!line.contains('\n'));
    }
    let first: serde_json::Value =
        serde_json::from_str(&mjlog_to_lines(RECORD).unwrap()[0]).unwrap();
    assert_eq!(first["names"][3], "\"D\"");
    assert_eq!(first["names"][0], "あ");
}

#[test]
fn absent_fields_are_left_out() {
    let hora = Event::Hora { actor: 3, target: 3, ura_markers: None, deltas: None };
    assert_eq!(hora.to_json(), "{\"type\":\"hora\",\"actor\":3,\"target\":3}");
    let hora = Event::Hora { actor: 3, target: 3, ura_markers: Some(vec![]), deltas: None };
    assert_eq!(hora.to_json(), "{\"type\":\"hora\",\"actor\":3,\"target\":3,\"ura_markers\":[]}");
    let hora = Event::Hora { actor: 3, target: 0, ura_markers: None, deltas: Some([1, -1, 0, 0]) };
    assert_eq!(hora.to_json(), "{\"type\":\"hora\",\"actor\":3,\"target\":0,\"deltas\":[1,-1,0,0]}");
    assert_eq!(Event::Ryukyoku { deltas: None }.to_json(), "{\"type\":\"ryukyoku\"}");
    assert_eq!(
        Event::Ryukyoku { deltas: Some([1500, -1500, 0, 0]) }.to_json(),
        "{\"type\":\"ryukyoku\",\"deltas\":[1500,-1500,0,0]}"
    );
}

#[test]
fn every_kind_of_meld_has_its_line() {
    let t = tile("5m");
    let r = tile("5mr");
    assert_eq!(
        Event::Pon { actor: 1, target: 0, pai: t, consumed: [t, r] }.to_json(),
        "{\"type\":\"pon\",\"actor\":1,\"target\":0,\"pai\":\"5m\",\"consumed\":[\"5m\",\"5mr\"]}"
    );
    assert_eq!(
        Event::Kakan { actor: 1, pai: r, consumed: [t, t, t] }.to_json(),
        "{\"type\":\"kakan\",\"actor\":1,\"pai\":\"5mr\",\"consumed\":[\"5m\",\"5m\",\"5m\"]}"
    );
    assert_eq!(
        Event::Ankan { actor: 2, consumed: [t, t, t, r] }.to_json(),
        "{\"type\":\"ankan\",\"actor\":2,\"consumed\":[\"5m\",\"5m\",\"5m\",\"5mr\"]}"
    );
    assert_eq!(
        Event::Daiminkan { actor: 2, target: 3, pai: r, consumed: [t, t, t] }.to_json(),
        "{\"type\":\"daiminkan\",\"actor\":2,\"target\":3,\"pai\":\"5mr\",\"consumed\":[\"5m\",\"5m\",\"5m\"]}"
    );
    assert_eq!(Event::EndKyoku.kind(), "end_kyoku");
}

#[test]
fn numbers_are_written_in_decimal() {
    for n in [0, 1, 9, 10, 11, 99, 100, 255, 25000, -1, -10, -25000, i32::MAX, i32::MIN] {
        assert_eq!(decimal_string(n), n.to_string());
    }
}

#[test]
fn texts_are_quoted_as_json() {
    assert_eq!(json_quote("a"), "\"a\"");
    assert_eq!(json_quote("a\"b\\c\n"), "\"a\\\"b\\\\c\\n\"");
    assert_eq!(json_quote(""), "\"\"");
    assert_eq!(
        json_quote("\u{0}\u{1}\u{8}\t\n\u{b}\u{c}\r\u{e}\u{1a}\u{1f} /\u{7f}\u{80}あ"),
        "\"\\u0000\\u0001\\b\\t\\n\\u000b\\f\\r\\u000e\\u001a\\u001f /\u{7f}\u{80}あ\""
    );
    assert_eq!(to_json_lines(&vec![]), Vec::<String>::new());
}

#[test]
fn version_gate() {
    let record = RECORD.replace("ver=\"2.3\"", "ver=\"2.2\"");
    assert_eq!(decode_mjlog(&record), Err(ConvertError::UnsupportedVersion));
    assert_eq!(mjlog_to_lines(&record), Err(ConvertError::UnsupportedVersion));
    for version in ["", "2.30", "2.3 ", "3", "02.3"] {
        let record = RECORD.replace("ver=\"2.3\"", &format!("ver=\"{}\"", version));
        assert_eq!(decode_mjlog(&record), Err(ConvertError::UnsupportedVersion), "{:?}", version);
    }
    let record = RECORD.replace(" ver=\"2.3\"", "");
    assert_eq!(
        decode_mjlog(&record),
        Err(ConvertError::MissingAttribute { tag: Tag::Mjloggm, attribute: Attr::Ver })
    );
}

#[test]
fn the_version_is_looked_at_once() {
    let record = "<mjloggm ver=\"2.3\"><mjloggm ver=\"2.2\"><TAIKYOKU/></mjloggm></mjloggm>";
    assert_eq!(events_of(record).len(), 1);
    let record = "<mjloggm ver=\"2.2\"/><TAIKYOKU/>";
    assert_eq!(events_of(record).len(), 1);
}

#[test]
fn end_to_end_start_game() {
    let fragment = "<GO type=\"0\"/><UN n0=\"%41%20b\" n1=\"%41%20b\" n2=\"%41%20b\" \
n3=\"%41%20b\"/><TAIKYOKU oya=\"0\"/>";
    assert_eq!(
        decode_mjlog(fragment),
        Ok(vec![Event::StartGame {
            names: names(["A b", "A b", "A b", "A b"]),
            kyoku_first: 0,
            aka_flag: true,
        }])
    );
    let fragment = fragment.replace("type=\"0\"", "type=\"2\"");
    assert_eq!(
        decode_mjlog(&fragment),
        Ok(vec![Event::StartGame {
            names: names(["A b", "A b", "A b", "A b"]),
            kyoku_first: 0,
            aka_flag: false,
        }])
    );
}

#[test]
fn seats_are_named_player_until_names_come() {
    assert_eq!(
        decode_mjlog("<TAIKYOKU oya=\"0\"/>"),
        Ok(vec![Event::StartGame {
            names: names(["player1", "player2", "player3", "player4"]),
            kyoku_first: 0,
            aka_flag: false,
        }])
    );
}

#[test]
fn only_the_first_list_of_names_counts() {
    let record = "<UN n0=\"a\" n1=\"b\" n2=\"c\" n3=\"d\"/><UN n1=\"x\"/><TAIKYOKU/>";
    assert_eq!(
        decode_mjlog(record),
        Ok(vec![Event::StartGame { names: names(["a", "b", "c", "d"]), kyoku_first: 0, aka_flag: false }])
    );
    assert_eq!(
        decode_mjlog("<UN n1=\"x\"/><TAIKYOKU/>"),
        Err(ConvertError::MissingAttribute { tag: Tag::Un, attribute: Attr::N0 })
    );
}

#[test]
fn a_game_of_three_is_refused() {
    assert_eq!(decode_mjlog("<GO type=\"16\"/><TAIKYOKU/>"), Err(ConvertError::UnsupportedGameMode));
    assert_eq!(
        decode_mjlog(&RECORD.replace("type=\"169\"", "type=\"185\"")),
        Err(ConvertError::UnsupportedGameMode)
    );
}

#[test]
fn reach_acceptance_is_counted_to_four() {
    let accept = "<REACH who=\"1\" step=\"2\"/>";
    let accepted = |count: usize| vec![Event::ReachAccepted { actor: 1 }; count];
    assert_eq!(events_of(&accept.repeat(2)), accepted(2));
    assert_eq!(events_of(&accept.repeat(4)), accepted(4));
    assert_eq!(events_of(&accept.repeat(5)), accepted(4));
    assert_eq!(events_of(&accept.repeat(9)), accepted(4));
}

#[test]
fn the_end_of_a_round_starts_the_count_anew() {
    let accept = "<REACH who=\"1\" step=\"2\"/>";
    let record = format!("{}<RYUUKYOKU/>{}", accept.repeat(5), accept.repeat(5));
    let mut expected = vec![Event::ReachAccepted { actor: 1 }; 4];
    expected.push(Event::Ryukyoku { deltas: None });
    expected.push(Event::EndKyoku);
    expected.extend(vec![Event::ReachAccepted { actor: 1 }; 4]);
    assert_eq!(events_of(&record), expected);
    let record = format!("{}<AGARI who=\"0\" fromWho=\"0\"/>{}", accept.repeat(4), accept);
    assert_eq!(events_of(&record).len(), 4 + 2 + 1);
    // The start of a round does not.
    let init = "<INIT seed=\"0,0,0,0,0,0\" ten=\"1,1,1,1\" oya=\"0\"/>";
    let record = format!("{}{}{}", accept.repeat(4), init, accept);
    assert_eq!(events_of(&record).len(), 4 + 1);
}

#[test]
fn other_steps_of_a_reach_give_nothing() {
    assert_eq!(events_of("<REACH who=\"1\" step=\"3\"/><REACH who=\"1\" step=\"0\"/>"), vec![]);
    assert_eq!(events_of("<REACH who=\"2\" step=\"1\"/>"), vec![Event::Reach { actor: 2 }]);
}

#[test]
fn tsumogiri_is_told_by_the_last_draw_of_the_seat() {
    let dahai = |record: &str| match events_of(record).pop().unwrap() {
        Event::Dahai { tsumogiri, .. } => tsumogiri,
        other => panic!("{:?}", other),
    };
    assert!(dahai("<T40/><D40/>"));
    assert!(!dahai("<T40/><D44/>"));
    // Another seat's draw does not count.
    assert!(!dahai("<T40/><E40/>"));
    assert!(dahai("<U40/><T44/><E40/>"));
    // The last draw counts, not an earlier one.
    assert!(!dahai("<T40/><T44/><D40/>"));
    // Two copies of one face are one tile, a red five and a plain five are two.
    assert!(dahai("<T40/><D41/>"));
    assert!(!dahai("<GO type=\"0\"/><T16/><D17/>"));
    assert!(dahai("<GO type=\"2\"/><T16/><D17/>"));
    // Before any draw the last draw is the unknown tile.
    assert!(!dahai("<D40/>"));
    assert!(dahai("<D136/>"));
}

#[test]
fn draws_and_discards_name_their_seat() {
    assert_eq!(
        events_of("<T0/><U4/><V8/><W12/><D0/><E4/><F8/><G12/>"),
        vec![
            Event::Tsumo { actor: 0, pai: tile("1m") },
            Event::Tsumo { actor: 1, pai: tile("2m") },
            Event::Tsumo { actor: 2, pai: tile("3m") },
            Event::Tsumo { actor: 3, pai: tile("4m") },
            Event::Dahai { actor: 0, pai: tile("1m"), tsumogiri: true },
            Event::Dahai { actor: 1, pai: tile("2m"), tsumogiri: true },
            Event::Dahai { actor: 2, pai: tile("3m"), tsumogiri: true },
            Event::Dahai { actor: 3, pai: tile("4m"), tsumogiri: true },
        ]
    );
}

#[test]
fn unknown_elements_are_passed_over() {
    let record = "<FOO/><BYE who=\"1\"/><SHUFFLE/><T/><T140/><Tx/><X12/><DORAx hai=\"0\"/>\
<t12/><TT12/><T256/><FURITEN who=\"0\"/><GO type=\"0\"></GO><mjloggm ver=\"1\"/>text<!-- c -->\
<?pi?><![CDATA[<T0/>]]><T139/>";
    assert_eq!(events_of(record), vec![Event::Tsumo { actor: 0, pai: tile("?") }]);
}

#[test]
fn markup_that_cannot_be_read_gives_no_event() {
    assert_eq!(events_of(""), vec![]);
    assert_eq!(events_of("<T0/></x><T4/>").len(), 2);
    assert_eq!(events_of("<T0/><T4").len(), 1);
    assert_eq!(events_of("<a><T0/></b><T4/>").len(), 2);
}

#[test]
fn attribute_values_are_unescaped() {
    let record = "<UN n0=\"a&amp;b\" n1=\"&lt;\" n2='&#37;41' n3=\"&quot;\"/><TAIKYOKU/>";
    assert_eq!(
        decode_mjlog(record),
        Ok(vec![Event::StartGame {
            names: names(["a&b", "<", "A", "\""]),
            kyoku_first: 0,
            aka_flag: false,
        }])
    );
}

#[test]
fn attributes_that_cannot_be_read_fail_where_they_are_needed() {
    let malformed = |tag, attribute| Err(ConvertError::MalformedValue { tag, attribute });
    assert_eq!(decode_mjlog("<DORA hai=\"&bogus;\"/>"), malformed(Tag::Dora, Attr::Hai));
    assert_eq!(decode_mjlog("<DORA hai/>"), malformed(Tag::Dora, Attr::Hai));
    assert_eq!(decode_mjlog("<DORA x hai=\"0\"/>"), malformed(Tag::Dora, Attr::Hai));
    assert_eq!(events_of("<DORA hai=\"0\" x/>"), vec![Event::Dora { dora_marker: tile("1m") }]);
    assert_eq!(events_of("<DORA y=\"&bogus;\" hai=\"0\"/>").len(), 1);
    assert_eq!(events_of("<REACH who=\"1\" step=\"1\" z/>"), vec![Event::Reach { actor: 1 }]);
    assert_eq!(decode_mjlog("<RYUUKYOKU z/>"), malformed(Tag::Ryuukyoku, Attr::Sc));
    assert_eq!(events_of("<T0 z/><BYE z/><TAIKYOKU z/>").len(), 2);
}

#[test]
fn concealed_kan_of_fives_has_one_red_tile() {
    for face in [4u16, 13, 22] {
        for copy in 0..4u16 {
            let meld = (face * 4 + copy) << 8;
            let record = format!("<GO type=\"0\"/><N who=\"1\" m=\"{}\"/>", meld);
            match events_of(&record).pop().unwrap() {
                Event::Ankan { actor, consumed } => {
                    assert_eq!(actor, 1);
                    assert_eq!(consumed.iter().filter(|t| t.is_red()).count(), 1);
                    assert!(consumed[3].is_red());
                    assert_eq!(consumed[3].to_canonical_id(), 34 + (face / 9) as u8);
                }
                other => panic!("{:?}", other),
            }
            let record = format!("<GO type=\"2\"/><N who=\"1\" m=\"{}\"/>", meld);
            match events_of(&record).pop().unwrap() {
                Event::Ankan { consumed, .. } => assert!(consumed.iter().all(|t| !t.is_red())),
                other => panic!("{:?}", other),
            }
        }
    }
}

#[test]
fn melds_become_their_events() {
    let meld = |who: u8, m: u16| {
        events_of(&format!("<GO type=\"0\"/><N who=\"{}\" m=\"{}\"/>", who, m)).pop().unwrap()
    };
    let e = tile("E");
    assert_eq!(meld(3, 42569), Event::Pon { actor: 3, target: 0, pai: e, consumed: [e, e] });
    assert_eq!(meld(0, 41553), Event::Kakan { actor: 0, pai: e, consumed: [e, e, e] });
    assert_eq!(
        meld(1, 4098),
        Event::Daiminkan {
            actor: 1,
            target: 3,
            pai: tile("5mr"),
            consumed: [tile("5m"), tile("5m"), tile("5m")],
        }
    );
    assert_eq!(
        meld(1, 4096),
        Event::Ankan { actor: 1, consumed: [tile("5m"), tile("5m"), tile("5m"), tile("5mr")] }
    );
    // An added kan with the red five added last to a turned pon.
    let code = |rotation: u16, added: u16| ((4 * 3 + rotation) << 9) | (added << 5) | 16 | 1;
    assert_eq!(
        meld(0, code(0, 0)),
        Event::Kakan { actor: 0, pai: tile("5mr"), consumed: [tile("5m"); 3] }
    );
    assert_eq!(
        meld(0, code(1, 0)),
        Event::Kakan { actor: 0, pai: tile("5m"), consumed: [tile("5mr"); 3] }
    );
}

#[test]
fn the_end_of_the_game_is_told_by_owari_alone() {
    assert_eq!(
        events_of("<RYUUKYOKU owari=\"&bogus;\"/>"),
        vec![Event::Ryukyoku { deltas: None }, Event::EndKyoku, Event::EndGame]
    );
    assert_eq!(events_of("<AGARI who=\"1\" fromWho=\"1\" owari=\"&bogus;\"/>").len(), 3);
    assert_eq!(events_of("<AGARI who=\"1\" fromWho=\"1\"/>").len(), 2);
}

#[test]
fn a_concealed_kan_takes_the_other_copies() {
    let kan = |named: u16| {
        match events_of(&format!("<GO type=\"0\"/><N who=\"0\" m=\"{}\"/>", named << 8)).pop() {
            Some(Event::Ankan { consumed, .. }) => consumed.map(|t| t.to_notation()),
            other => panic!("{:?}", other),
        }
    };
    for copy in 0..4 {
        assert_eq!(kan(16 + copy), ["5m", "5m", "5m", "5mr"]);
        assert_eq!(kan(20 + copy), ["6m", "6m", "6m", "6m"]);
        assert_eq!(kan(132 + copy), ["C", "C", "C", "C"]);
    }
}

#[test]
fn a_drawn_round_ends_the_round() {
    assert_eq!(
        events_of("<RYUUKYOKU ba=\"0,0\" sc=\"250,15,250,-15,250,0,250,0\"/>"),
        vec![Event::Ryukyoku { deltas: Some([1500, -1500, 0, 0]) }, Event::EndKyoku]
    );
    assert_eq!(
        events_of("<RYUUKYOKU type=\"yao9\" owari=\"\"/>"),
        vec![Event::Ryukyoku { deltas: None }, Event::EndKyoku, Event::EndGame]
    );
}

#[test]
fn a_failure_gives_no_event() {
    let record = format!("{}<DORA/>", "<T0/>".repeat(3));
    assert_eq!(
        decode_mjlog(&record),
        Err(ConvertError::MissingAttribute { tag: Tag::Dora, attribute: Attr::Hai })
    );
    // The first piece that fails decides.
    let record = "<T0/><DORA hai=\"x\"/><GO type=\"16\"/>";
    assert_eq!(
        decode_mjlog(record),
        Err(ConvertError::MalformedValue { tag: Tag::Dora, attribute: Attr::Hai })
    );
}

#[test]
fn pieces_convert_as_the_text_does() {
    let element = |name: &str, attributes: &[(&str, &str)]| Element {
        name: name.to_string(),
        attributes: attributes
            .iter()
            .map(|(k, v)| Attribute::Pair { key: k.to_string(), value: v.to_string() })
            .collect(),
    };
    let nodes = vec![
        XmlNode::Open(element("mjloggm", &[("ver", "2.3")])),
        XmlNode::Leaf(element("GO", &[("type", "0")])),
        XmlNode::Other,
        XmlNode::Leaf(element("T16", &[])),
        XmlNode::Leaf(element("D16", &[])),
        XmlNode::Open(element("T16", &[])),
        XmlNode::Leaf(element("WHATEVER", &[])),
    ];
    let text = "<mjloggm ver=\"2.3\"><GO type=\"0\"/> <T16/><D16/><T16></T16><WHATEVER/>";
    assert_eq!(decode_nodes(&nodes), decode_mjlog(text));
    assert_eq!(decode_nodes(&nodes).unwrap().len(), 2);
    let mut conversion = Conversion::new();
    assert!(!conversion.aka_flag());
    assert_eq!(conversion.step(&nodes[1]), Ok(vec![]));
    assert!(conversion.aka_flag());
    assert_eq!(conversion.reach_accepted(), 0);
    assert_eq!(
        conversion.step(&nodes[3]),
        Ok(vec![Event::Tsumo { actor: 0, pai: tile("5mr") }])
    );
}

#[test]
fn batch_isolation() {
    let broken = RECORD.replace("ver=\"2.3\"", "ver=\"2.2\"");
    let records = vec![
        Some(RECORD.to_string()),
        Some(broken),
        Some("<T0/>".to_string()),
        None,
        Some(RECORD.to_string()),
        Some("<UN/>".to_string()),
    ];
    let outcomes = parse_mjlog(&records);
    assert_eq!(outcomes.len(), 6);
    assert_eq!(outcomes[0], Outcome::Lines(mjlog_to_lines(RECORD).unwrap()));
    assert_eq!(outcomes[1], Outcome::Failed(ConvertError::UnsupportedVersion));
    assert_eq!(outcomes[2], Outcome::Lines(vec!["{\"type\":\"tsumo\",\"actor\":0,\"pai\":\"1m\"}".to_string()]));
    assert_eq!(outcomes[3], Outcome::Missing);
    assert_eq!(outcomes[4], outcomes[0]);
    assert_eq!(
        outcomes[5],
        Outcome::Failed(ConvertError::MissingAttribute { tag: Tag::Un, attribute: Attr::N0 })
    );
    assert_eq!(parse_mjlog(&vec![]), vec![]);
    // One record converts alone as it does in a batch.
    assert_eq!(parse_mjlog(&vec![records[2].clone()]), vec![outcomes[2].clone()]);
}

#[test]
fn failures_say_where_they_lie() {
    assert_eq!(
        ConvertError::MissingAttribute { tag: Tag::Agari, attribute: Attr::FromWho }.message(),
        "element AGARI has no attribute fromWho"
    );
    assert_eq!(
        ConvertError::MalformedValue { tag: Tag::Init, attribute: Attr::Hai3 }.message(),
        "element INIT has a malformed attribute hai3"
    );
    assert_eq!(ConvertError::UnsupportedVersion.message(), "only version 2.3 of mjlog is supported");
    assert_eq!(
        ConvertError::UnsupportedGameMode.message(),
        "a game of three players is not supported"
    );
    assert_eq!(
        ConvertError::InvalidTileNotation.message(),
        "the text is not the notation of a tile"
    );
    assert_eq!(Tag::Ryuukyoku.name(), "RYUUKYOKU");
    assert_eq!(Attr::DoraHaiUra.name(), "doraHaiUra");
}
