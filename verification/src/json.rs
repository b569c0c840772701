//! The wire form of an event: one JSON object on one line.
//!
//! The object begins with the field `type`, which names the kind of the
//! event. The fields of the event follow in their order. A field that the
//! event lacks is left out; none is ever written as `null`. A tile is
//! written as the string of its notation. Nothing is written between the
//! parts: no blank, no line break.
//!
//! A text is written as a JSON string: between quotes, with the quote, the
//! backslash and the control characters below the blank escaped and every
//! other character as it is.

use crate::event::{
    event_views, hand_views, markers_view, points_view, string_views, Event, EventView,
};
use crate::text::{decimal_string, decimal_text, digit_char};
use crate::tile::{tile_views, Tile, TileView};
use vstd::prelude::*;
use vstd::string::*;

verus! {

/// The error of `serde_json`.
#[verifier::external_type_specification]
#[verifier::external_body]
pub struct ExJsonError(serde_json::Error);

/// The digit of a number below sixteen in base sixteen, in small letters.
pub open spec fn hex_char(n: nat) -> char {
    if n < 10 {
        digit_char(n)
    } else if n == 10 {
        'a'
    } else if n == 11 {
        'b'
    } else if n == 12 {
        'c'
    } else if n == 13 {
        'd'
    } else if n == 14 {
        'e'
    } else {
        'f'
    }
}

/// A character as it stands in a JSON string. The quote and the backslash
/// get a backslash in front. Backspace, tab, line feed, form feed and
/// carriage return are written with their letter behind a backslash, every
/// other character below the blank as `\u00` and its two digits in base
/// sixteen. Any other character stands as it is.
pub open spec fn escaped(c: char) -> Seq<char> {
    if c == '"' {
        seq!['\\', '"']
    } else if c == '\\' {
        seq!['\\', '\\']
    } else if c == '\u{8}' {
        seq!['\\', 'b']
    } else if c == '\t' {
        seq!['\\', 't']
    } else if c == '\n' {
        seq!['\\', 'n']
    } else if c == '\u{c}' {
        seq!['\\', 'f']
    } else if c == '\r' {
        seq!['\\', 'r']
    } else if (c as u32) < 0x20 {
        seq!['\\', 'u', '0', '0', hex_char((c as u32 / 16) as nat), hex_char((c as u32 % 16) as nat)]
    } else {
        seq![c]
    }
}

/// The characters of a text as they stand in a JSON string, one behind the
/// other.
pub open spec fn escaped_text(text: Seq<char>) -> Seq<char>
    decreases text.len(),
{
    if text.len() == 0 {
        Seq::empty()
    } else {
        escaped_text(text.drop_last()) + escaped(text.last())
    }
}

/// A text as a JSON string: its characters, escaped, between two quotes.
pub open spec fn json_string(text: Seq<char>) -> Seq<char> {
    seq!['"'] + escaped_text(text) + seq!['"']
}

/// `serde_json::to_string` on a text: the text as a JSON string, written as
/// `json_string` says. It fails only where an implementation of `Serialize`
/// fails or a map has keys that are no strings, and a text is neither.
#[verifier::external_body]
fn quote(text: &str) -> (r: Result<String, serde_json::Error>)
    ensures
        r is Ok,
        r.unwrap()@ == json_string(text@),
{
    serde_json::to_string(text)
}

/// A truth value.
pub open spec fn bool_text(b: bool) -> Seq<char> {
    if b {
        "true"@
    } else {
        "false"@
    }
}

/// Texts with a comma between each two.
pub open spec fn joined(items: Seq<Seq<char>>) -> Seq<char>
    decreases items.len(),
{
    if items.len() == 0 {
        Seq::empty()
    } else if items.len() == 1 {
        items[0]
    } else {
        joined(items.drop_last()) + ","@ + items.last()
    }
}

/// A JSON array of items that are written already.
pub open spec fn list_text(items: Seq<Seq<char>>) -> Seq<char> {
    "["@ + joined(items) + "]"@
}

/// A tile as a JSON string.
pub open spec fn tile_text(tile: TileView) -> Seq<char> {
    "\""@ + tile.notation() + "\""@
}

/// Tiles as a JSON array.
pub open spec fn tiles_text(tiles: Seq<TileView>) -> Seq<char> {
    list_text(tiles.map_values(|tile: TileView| tile_text(tile)))
}

/// Hands as a JSON array of arrays.
pub open spec fn hands_text(hands: Seq<Seq<TileView>>) -> Seq<char> {
    list_text(hands.map_values(|hand: Seq<TileView>| tiles_text(hand)))
}

/// Numbers as a JSON array.
pub open spec fn numbers_text(numbers: Seq<i32>) -> Seq<char> {
    list_text(numbers.map_values(|n: i32| decimal_text(n as int)))
}

/// Names as a JSON array of strings.
pub open spec fn names_text(names: Seq<Seq<char>>) -> Seq<char> {
    list_text(names.map_values(|name: Seq<char>| json_string(name)))
}

/// One field behind another: a comma, the name in quotes, a colon, the
/// value.
pub open spec fn field(name: Seq<char>, value: Seq<char>) -> Seq<char> {
    ",\""@ + name + "\":"@ + value
}

/// A field that is written only where there is a value.
pub open spec fn optional_field(name: Seq<char>, value: Option<Seq<char>>) -> Seq<char> {
    match value {
        Some(v) => field(name, v),
        None => Seq::empty(),
    }
}

/// The name of the kind of an event.
pub open spec fn kind_name(event: EventView) -> Seq<char> {
    match event {
        EventView::StartGame { .. } => "start_game"@,
        EventView::StartKyoku { .. } => "start_kyoku"@,
        EventView::Tsumo { .. } => "tsumo"@,
        EventView::Dahai { .. } => "dahai"@,
        EventView::Chi { .. } => "chi"@,
        EventView::Pon { .. } => "pon"@,
        EventView::Kakan { .. } => "kakan"@,
        EventView::Ankan { .. } => "ankan"@,
        EventView::Daiminkan { .. } => "daiminkan"@,
        EventView::Reach { .. } => "reach"@,
        EventView::ReachAccepted { .. } => "reach_accepted"@,
        EventView::Dora { .. } => "dora"@,
        EventView::Hora { .. } => "hora"@,
        EventView::Ryukyoku { .. } => "ryukyoku"@,
        EventView::EndKyoku => "end_kyoku"@,
        EventView::EndGame => "end_game"@,
    }
}

/// The seat of a field.
pub open spec fn seat_field(name: Seq<char>, seat: u8) -> Seq<char> {
    field(name, decimal_text(seat as int))
}

/// The fields of an event behind its kind.
pub open spec fn fields_text(event: EventView) -> Seq<char> {
    match event {
        EventView::StartGame { names, kyoku_first, aka_flag } => field("names"@, names_text(names))
            + field("kyoku_first"@, decimal_text(kyoku_first as int)) + field(
            "aka_flag"@,
            bool_text(aka_flag),
        ),
        EventView::StartKyoku {
            bakaze,
            dora_marker,
            kyoku,
            honba,
            kyotaku,
            oya,
            scores,
            tehais,
        } => field("bakaze"@, tile_text(bakaze)) + field("dora_marker"@, tile_text(dora_marker))
            + field("kyoku"@, decimal_text(kyoku as int)) + field(
            "honba"@,
            decimal_text(honba as int),
        ) + field("kyotaku"@, decimal_text(kyotaku as int)) + field(
            "oya"@,
            decimal_text(oya as int),
        ) + field("scores"@, numbers_text(scores)) + field("tehais"@, hands_text(tehais)),
        EventView::Tsumo { actor, pai } => seat_field("actor"@, actor) + field(
            "pai"@,
            tile_text(pai),
        ),
        EventView::Dahai { actor, pai, tsumogiri } => seat_field("actor"@, actor) + field(
            "pai"@,
            tile_text(pai),
        ) + field("tsumogiri"@, bool_text(tsumogiri)),
        EventView::Chi { actor, target, pai, consumed } => called_text(
            actor,
            target,
            pai,
            consumed,
        ),
        EventView::Pon { actor, target, pai, consumed } => called_text(
            actor,
            target,
            pai,
            consumed,
        ),
        EventView::Daiminkan { actor, target, pai, consumed } => called_text(
            actor,
            target,
            pai,
            consumed,
        ),
        EventView::Kakan { actor, pai, consumed } => seat_field("actor"@, actor) + field(
            "pai"@,
            tile_text(pai),
        ) + field("consumed"@, tiles_text(consumed)),
        EventView::Ankan { actor, consumed } => seat_field("actor"@, actor) + field(
            "consumed"@,
            tiles_text(consumed),
        ),
        EventView::Reach { actor } => seat_field("actor"@, actor),
        EventView::ReachAccepted { actor } => seat_field("actor"@, actor),
        EventView::Dora { dora_marker } => field("dora_marker"@, tile_text(dora_marker)),
        EventView::Hora { actor, target, ura_markers, deltas } => seat_field("actor"@, actor)
            + seat_field("target"@, target) + optional_field(
            "ura_markers"@,
            match ura_markers {
                Some(tiles) => Some(tiles_text(tiles)),
                None => None,
            },
        ) + deltas_field(deltas),
        EventView::Ryukyoku { deltas } => deltas_field(deltas),
        EventView::EndKyoku => Seq::empty(),
        EventView::EndGame => Seq::empty(),
    }
}

/// The fields of a meld with a called tile: who called, from whom, the
/// tile, and the tiles from the hand.
pub open spec fn called_text(actor: u8, target: u8, pai: TileView, consumed: Seq<TileView>) -> Seq<
    char,
> {
    seat_field("actor"@, actor) + seat_field("target"@, target) + field("pai"@, tile_text(pai))
        + field("consumed"@, tiles_text(consumed))
}

/// The field of the changes of the scores, where the event has them.
pub open spec fn deltas_field(deltas: Option<Seq<i32>>) -> Seq<char> {
    optional_field(
        "deltas"@,
        match deltas {
            Some(points) => Some(numbers_text(points)),
            None => None,
        },
    )
}

/// The wire form of an event.
pub open spec fn json_of(event: EventView) -> Seq<char> {
    "{\"type\":\""@ + kind_name(event) + "\""@ + fields_text(event) + "}"@
}

/// Writes a truth value.
fn bool_str(b: bool) -> (s: &'static str)
    ensures
        s@ == bool_text(b),
{
    if b {
        "true"
    } else {
        "false"
    }
}

/// Writes items that are written already as a JSON array.
fn list_string(items: &Vec<String>) -> (s: String)
    ensures
        s@ == list_text(string_views(items@)),
{
    let ghost texts = string_views(items@);
    let mut s = String::from_str("[");
    let mut i: usize = 0;
    assert(texts.take(0) =~= Seq::<Seq<char>>::empty());
    while i < items.len()
        invariant
            i <= items@.len(),
            texts == string_views(items@),
            s@ == "["@ + joined(texts.take(i as int)),
        decreases items@.len() - i,
    {
        let ghost had = texts.take(i as int);
        let ghost now = texts.take(i + 1);
        proof {
            assert(now.drop_last() =~= had);
            assert(now.last() == items@[i as int]@);
        }
        if i > 0 {
            s.append(",");
        }
        s.append(items[i].as_str());
        assert(s@ =~= "["@ + joined(now));
        i = i + 1;
    }
    assert(texts.take(items@.len() as int) =~= texts);
    s.append("]");
    s
}

/// Writes a tile as a JSON string.
fn tile_string(tile: &Tile) -> (s: String)
    ensures
        s@ == tile_text(tile@),
{
    let mut s = String::from_str("\"");
    let notation = tile.to_notation();
    s.append(notation.as_str());
    s.append("\"");
    s
}

/// Writes tiles as a JSON array.
fn tiles_string(tiles: &[Tile]) -> (s: String)
    ensures
        s@ == tiles_text(tile_views(tiles@)),
{
    let ghost texts = tile_views(tiles@).map_values(|tile: TileView| tile_text(tile));
    let mut items: Vec<String> = Vec::new();
    let mut i: usize = 0;
    while i < tiles.len()
        invariant
            i <= tiles@.len(),
            texts == tile_views(tiles@).map_values(|tile: TileView| tile_text(tile)),
            items@.len() == i,
            forall|k: int| 0 <= k < i ==> (#[trigger] items@[k])@ == texts[k],
        decreases tiles@.len() - i,
    {
        items.push(tile_string(&tiles[i]));
        i = i + 1;
    }
    assert(string_views(items@) =~= texts);
    list_string(&items)
}

/// Writes hands as a JSON array of arrays.
fn hands_string(hands: &[[Tile; 13]; 4]) -> (s: String)
    ensures
        s@ == hands_text(hand_views(hands@)),
{
    let ghost texts = hand_views(hands@).map_values(
        |hand: Seq<TileView>| tiles_text(hand),
    );
    let mut items: Vec<String> = Vec::new();
    let mut i: usize = 0;
    while i < 4
        invariant
            i <= 4,
            texts == hand_views(hands@).map_values(
                |hand: Seq<TileView>| tiles_text(hand),
            ),
            items@.len() == i,
            forall|k: int| 0 <= k < i ==> (#[trigger] items@[k])@ == texts[k],
        decreases 4 - i,
    {
        items.push(tiles_string(hands[i].as_slice()));
        i = i + 1;
    }
    assert(string_views(items@) =~= texts);
    list_string(&items)
}

/// Writes numbers as a JSON array.
fn numbers_string(numbers: &[i32]) -> (s: String)
    ensures
        s@ == numbers_text(numbers@),
{
    let ghost texts = numbers@.map_values(|n: i32| decimal_text(n as int));
    let mut items: Vec<String> = Vec::new();
    let mut i: usize = 0;
    while i < numbers.len()
        invariant
            i <= numbers@.len(),
            texts == numbers@.map_values(|n: i32| decimal_text(n as int)),
            items@.len() == i,
            forall|k: int| 0 <= k < i ==> (#[trigger] items@[k])@ == texts[k],
        decreases numbers@.len() - i,
    {
        items.push(decimal_string(numbers[i]));
        i = i + 1;
    }
    assert(string_views(items@) =~= texts);
    list_string(&items)
}

/// Writes a text as a JSON string.
pub fn json_quote(text: &str) -> (s: String)
    ensures
        s@ == json_string(text@),
{
    match quote(text) {
        Ok(quoted) => quoted,
        Err(_) => String::new(),
    }
}

/// Writes names as a JSON array of strings.
fn names_string(names: &[String; 4]) -> (s: String)
    ensures
        s@ == names_text(string_views(names@)),
{
    let ghost texts = string_views(names@).map_values(|name: Seq<char>| json_string(name));
    let mut items: Vec<String> = Vec::new();
    let mut i: usize = 0;
    while i < 4
        invariant
            i <= 4,
            texts == string_views(names@).map_values(|name: Seq<char>| json_string(name)),
            items@.len() == i,
            forall|k: int| 0 <= k < i ==> (#[trigger] items@[k])@ == texts[k],
        decreases 4 - i,
    {
        items.push(json_quote(names[i].as_str()));
        i = i + 1;
    }
    assert(string_views(items@) =~= texts);
    list_string(&items)
}

/// Puts a field behind what is written.
fn push_field(out: &mut String, name: &str, value: &str)
    ensures
        final(out)@ == old(out)@ + field(name@, value@),
{
    out.append(",\"");
    out.append(name);
    out.append("\":");
    out.append(value);
    assert(out@ =~= old(out)@ + field(name@, value@));
}

/// Puts the field of a seat behind what is written.
fn push_seat(out: &mut String, name: &str, seat: u8)
    ensures
        final(out)@ == old(out)@ + seat_field(name@, seat),
{
    let value = decimal_string(seat as i32);
    push_field(out, name, value.as_str());
}

/// Puts the field of a tile behind what is written.
fn push_tile(out: &mut String, name: &str, tile: &Tile)
    ensures
        final(out)@ == old(out)@ + field(name@, tile_text(tile@)),
{
    let value = tile_string(tile);
    push_field(out, name, value.as_str());
}

/// Puts the field of a list of tiles behind what is written.
fn push_tiles(out: &mut String, name: &str, tiles: &[Tile])
    ensures
        final(out)@ == old(out)@ + field(name@, tiles_text(tile_views(tiles@))),
{
    let value = tiles_string(tiles);
    push_field(out, name, value.as_str());
}

/// Puts the field of the changes of the scores behind what is written,
/// where there are any.
fn push_deltas(out: &mut String, deltas: &Option<[i32; 4]>)
    ensures
        final(out)@ == old(out)@ + deltas_field(points_view(*deltas)),
{
    match deltas {
        Some(points) => {
            let value = numbers_string(points.as_slice());
            push_field(out, "deltas", value.as_str());
        },
        None => {
            assert(out@ =~= old(out)@ + Seq::<char>::empty());
        },
    }
}

/// Puts the fields of a meld with a called tile behind what is written.
fn push_called(out: &mut String, actor: u8, target: u8, pai: &Tile, consumed: &[Tile])
    ensures
        final(out)@ == old(out)@ + called_text(actor, target, pai@, tile_views(consumed@)),
{
    push_seat(out, "actor", actor);
    push_seat(out, "target", target);
    push_tile(out, "pai", pai);
    push_tiles(out, "consumed", consumed);
    assert(out@ =~= old(out)@ + called_text(actor, target, pai@, tile_views(consumed@)));
}

/// Puts the fields of the start of a game behind what is written.
fn push_start_game(out: &mut String, names: &[String; 4], kyoku_first: u8, aka_flag: bool)
    ensures
        final(out)@ == old(out)@ + fields_text(
            EventView::StartGame { names: string_views(names@), kyoku_first, aka_flag },
        ),
{
    let list = names_string(names);
    push_field(out, "names", list.as_str());
    push_seat(out, "kyoku_first", kyoku_first);
    push_field(out, "aka_flag", bool_str(aka_flag));
    assert(out@ =~= old(out)@ + fields_text(
        EventView::StartGame { names: string_views(names@), kyoku_first, aka_flag },
    ));
}

/// Puts the fields of the start of a round behind what is written. The
/// four numbers are the round in its wind, the two counters and the dealer.
fn push_start_kyoku(
    out: &mut String,
    bakaze: &Tile,
    dora_marker: &Tile,
    numbers: (u8, u8, u8, u8),
    scores: &[i32; 4],
    tehais: &[[Tile; 13]; 4],
)
    ensures
        final(out)@ == old(out)@ + fields_text(
            EventView::StartKyoku {
                bakaze: bakaze@,
                dora_marker: dora_marker@,
                kyoku: numbers.0,
                honba: numbers.1,
                kyotaku: numbers.2,
                oya: numbers.3,
                scores: scores@,
                tehais: hand_views(tehais@),
            },
        ),
{
    push_tile(out, "bakaze", bakaze);
    push_tile(out, "dora_marker", dora_marker);
    push_seat(out, "kyoku", numbers.0);
    push_seat(out, "honba", numbers.1);
    push_seat(out, "kyotaku", numbers.2);
    push_seat(out, "oya", numbers.3);
    let points = numbers_string(scores.as_slice());
    push_field(out, "scores", points.as_str());
    let hands = hands_string(tehais);
    push_field(out, "tehais", hands.as_str());
    assert(out@ =~= old(out)@ + fields_text(
        EventView::StartKyoku {
            bakaze: bakaze@,
            dora_marker: dora_marker@,
            kyoku: numbers.0,
            honba: numbers.1,
            kyotaku: numbers.2,
            oya: numbers.3,
            scores: scores@,
            tehais: hand_views(tehais@),
        },
    ));
}

/// Puts the fields of a win behind what is written.
fn push_hora(
    out: &mut String,
    actor: u8,
    target: u8,
    ura_markers: &Option<Vec<Tile>>,
    deltas: &Option<[i32; 4]>,
)
    ensures
        final(out)@ == old(out)@ + fields_text(
            EventView::Hora {
                actor,
                target,
                ura_markers: markers_view(*ura_markers),
                deltas: points_view(*deltas),
            },
        ),
{
    push_seat(out, "actor", actor);
    push_seat(out, "target", target);
    match ura_markers {
        Some(tiles) => {
            push_tiles(out, "ura_markers", tiles.as_slice());
        },
        None => {},
    }
    push_deltas(out, deltas);
    assert(out@ =~= old(out)@ + fields_text(
        EventView::Hora {
            actor,
            target,
            ura_markers: markers_view(*ura_markers),
            deltas: points_view(*deltas),
        },
    ));
}

impl Event {
    /// The name of the kind of the event.
    pub fn kind(&self) -> (s: &'static str)
        ensures
            s@ == kind_name(self@),
    {
        match self {
            Event::StartGame { .. } => "start_game",
            Event::StartKyoku { .. } => "start_kyoku",
            Event::Tsumo { .. } => "tsumo",
            Event::Dahai { .. } => "dahai",
            Event::Chi { .. } => "chi",
            Event::Pon { .. } => "pon",
            Event::Kakan { .. } => "kakan",
            Event::Ankan { .. } => "ankan",
            Event::Daiminkan { .. } => "daiminkan",
            Event::Reach { .. } => "reach",
            Event::ReachAccepted { .. } => "reach_accepted",
            Event::Dora { .. } => "dora",
            Event::Hora { .. } => "hora",
            Event::Ryukyoku { .. } => "ryukyoku",
            Event::EndKyoku => "end_kyoku",
            Event::EndGame => "end_game",
        }
    }

    /// Puts the fields of the event behind what is written.
    fn push_fields(&self, out: &mut String)
        ensures
            final(out)@ == old(out)@ + fields_text(self@),
    {
        match self {
            Event::StartGame { names, kyoku_first, aka_flag } => {
                push_start_game(out, names, *kyoku_first, *aka_flag);
            },
            Event::StartKyoku {
                bakaze,
                dora_marker,
                kyoku,
                honba,
                kyotaku,
                oya,
                scores,
                tehais,
            } => {
                push_start_kyoku(
                    out,
                    bakaze,
                    dora_marker,
                    (*kyoku, *honba, *kyotaku, *oya),
                    scores,
                    tehais,
                );
            },
            Event::Tsumo { actor, pai } => {
                push_seat(out, "actor", *actor);
                push_tile(out, "pai", pai);
            },
            Event::Dahai { actor, pai, tsumogiri } => {
                push_seat(out, "actor", *actor);
                push_tile(out, "pai", pai);
                push_field(out, "tsumogiri", bool_str(*tsumogiri));
            },
            Event::Chi { actor, target, pai, consumed } => {
                push_called(out, *actor, *target, pai, consumed.as_slice());
            },
            Event::Pon { actor, target, pai, consumed } => {
                push_called(out, *actor, *target, pai, consumed.as_slice());
            },
            Event::Daiminkan { actor, target, pai, consumed } => {
                push_called(out, *actor, *target, pai, consumed.as_slice());
            },
            Event::Kakan { actor, pai, consumed } => {
                push_seat(out, "actor", *actor);
                push_tile(out, "pai", pai);
                push_tiles(out, "consumed", consumed.as_slice());
            },
            Event::Ankan { actor, consumed } => {
                push_seat(out, "actor", *actor);
                push_tiles(out, "consumed", consumed.as_slice());
            },
            Event::Reach { actor } => {
                push_seat(out, "actor", *actor);
            },
            Event::ReachAccepted { actor } => {
                push_seat(out, "actor", *actor);
            },
            Event::Dora { dora_marker } => {
                push_tile(out, "dora_marker", dora_marker);
            },
            Event::Hora { actor, target, ura_markers, deltas } => {
                push_hora(out, *actor, *target, ura_markers, deltas);
            },
            Event::Ryukyoku { deltas } => {
                push_deltas(out, deltas);
            },
            Event::EndKyoku => {},
            Event::EndGame => {},
        }
        assert(out@ =~= old(out)@ + fields_text(self@));
    }

    /// The wire form of the event: one JSON object, on one line.
    pub fn to_json(&self) -> (s: String)
        ensures
            s@ == json_of(self@),
    {
        let mut s = String::from_str("{\"type\":\"");
        s.append(self.kind());
        s.append("\"");
        self.push_fields(&mut s);
        s.append("}");
        assert(s@ =~= json_of(self@));
        s
    }
}

/// The wire forms of events, event by event.
pub open spec fn lines_of(events: Seq<EventView>) -> Seq<Seq<char>> {
    events.map_values(|event: EventView| json_of(event))
}

/// Writes each event in its wire form.
pub fn to_json_lines(events: &Vec<Event>) -> (lines: Vec<String>)
    ensures
        string_views(lines@) == lines_of(event_views(events@)),
{
    let ghost texts = lines_of(event_views(events@));
    let mut lines: Vec<String> = Vec::new();
    let mut i: usize = 0;
    while i < events.len()
        invariant
            i <= events@.len(),
            texts == lines_of(event_views(events@)),
            lines@.len() == i,
            forall|k: int| 0 <= k < i ==> (#[trigger] lines@[k])@ == texts[k],
        decreases events@.len() - i,
    {
        lines.push(events[i].to_json());
        i = i + 1;
    }
    assert(string_views(lines@) =~= texts);
    lines
}

} // verus!
