//! The shape of a tenhou/6 log.
//!
//! The log is a JSON object. `name` holds the four names, `rule` the rules
//! of the game, `log` the rounds. A round is a list of seventeen: the number
//! of the round with its counters, the scores, the dora indicators, the
//! indicators under them, then for each of the four seats the hand dealt,
//! the takes and the gifts, and last the result. A tile is a number. A call
//! is a text of two-digit tile numbers with a letter in it: the letter says
//! what is called, its place says from whom, and the tile behind the letter
//! is the tile called or added. A log of any other shape is refused.

use crate::error::{ConvertError, Part};
use crate::event::{markers_view, points_view, string_views};
use crate::mjlog::{all_some, four_points, thirteen_tiles};
use crate::tenhou::log::{
    discard_views, hora_views, kyoku_views, seat_views, take_views, Discard, DiscardView,
    EndStatus, EndView, HoraDetail, HoraView, Kyoku, KyokuView, Log, LogView, Seat, SeatView, Take,
    TakeView,
};
use crate::tenhou::play::{mismatch, round_number};
use crate::text::{chars_of, digit_value, is_digit};
use crate::tile::{tenhou_tile, tile_views, Tile, TileView};
use crate::value::{json_document, lemma_list_views, list_views, parse_json, Json, JsonView};
use vstd::prelude::*;
use vstd::string::*;

verus! {

/// The tile that a JSON number names.
pub open spec fn tile_of(j: JsonView) -> Option<TileView> {
    match j.number() {
        Some(n) => tenhou_tile(n as int),
        None => None,
    }
}

/// The tiles of a JSON list of tile numbers.
pub open spec fn tiles_of(j: JsonView) -> Option<Seq<TileView>> {
    match j.items() {
        Some(items) => all_some(items.map_values(|item: JsonView| tile_of(item))),
        None => None,
    }
}

/// The small number that a JSON number is.
pub open spec fn small_of(j: JsonView) -> Option<u8> {
    match j.number() {
        Some(n) => if 0 <= n <= 255 {
            Some(n as u8)
        } else {
            None
        },
        None => None,
    }
}

/// The seat that a JSON number names.
pub open spec fn seat_of(j: JsonView) -> Option<u8> {
    match small_of(j) {
        Some(n) => if n < 4 {
            Some(n)
        } else {
            None
        },
        None => None,
    }
}

/// The points that a JSON number is.
pub open spec fn points_of(j: JsonView) -> Option<i32> {
    match j.number() {
        Some(n) => if i32::MIN <= n <= i32::MAX {
            Some(n as i32)
        } else {
            None
        },
        None => None,
    }
}

/// The four numbers of a JSON list of four numbers.
pub open spec fn four_of(j: JsonView) -> Option<Seq<i32>> {
    match j.items() {
        Some(items) => match all_some(items.map_values(|item: JsonView| points_of(item))) {
            Some(points) => if points.len() == 4 {
                Some(points)
            } else {
                None
            },
            None => None,
        },
        None => None,
    }
}

/// The number that two digits write at a place of a text.
pub open spec fn pair_value(s: Seq<char>, at: int) -> Option<int> {
    if 0 <= at && at + 1 < s.len() && is_digit(s[at]) && is_digit(s[at + 1]) {
        Some((digit_value(s[at]) * 10 + digit_value(s[at + 1])) as int)
    } else {
        None
    }
}

/// The tile that two digits name at a place of a text.
pub open spec fn pair_tile(s: Seq<char>, at: int) -> Option<TileView> {
    match pair_value(s, at) {
        Some(n) => tenhou_tile(n),
        None => None,
    }
}

/// The tile called and the two tiles from the hand, where the three places
/// hold tiles.
pub open spec fn called_two(s: Seq<char>, pai: int, first: int, second: int) -> Option<
    (TileView, Seq<TileView>),
> {
    match (pair_tile(s, pai), pair_tile(s, first), pair_tile(s, second)) {
        (Some(p), Some(a), Some(b)) => Some((p, seq![a, b])),
        _ => None,
    }
}

/// The tile called or added and the three tiles from the hand, where the
/// four places hold tiles.
pub open spec fn called_three(s: Seq<char>, pai: int, first: int, second: int, third: int) -> Option<
    (TileView, Seq<TileView>),
> {
    match (pair_tile(s, pai), pair_tile(s, first), pair_tile(s, second), pair_tile(s, third)) {
        (Some(p), Some(a), Some(b), Some(c)) => Some((p, seq![a, b, c])),
        _ => None,
    }
}

/// The call that a text among the takes writes. `c` is a chi, always from
/// the seat before; `p` is a pon and `m` an open kan of four, from the seat
/// before where the letter comes first, from the seat across where one tile
/// stands before it, from the next seat where it stands before the last
/// tile.
pub open spec fn call_of(s: Seq<char>) -> Option<TakeView> {
    if s.len() == 7 && s[0] == 'c' {
        match called_two(s, 1, 3, 5) {
            Some((pai, consumed)) => Some(TakeView::Chi { pai, consumed }),
            None => None,
        }
    } else if s.len() == 7 && s[0] == 'p' {
        match called_two(s, 1, 3, 5) {
            Some((pai, consumed)) => Some(TakeView::Pon { from: 3, pai, consumed }),
            None => None,
        }
    } else if s.len() == 7 && s[2] == 'p' {
        match called_two(s, 3, 0, 5) {
            Some((pai, consumed)) => Some(TakeView::Pon { from: 2, pai, consumed }),
            None => None,
        }
    } else if s.len() == 7 && s[4] == 'p' {
        match called_two(s, 5, 0, 2) {
            Some((pai, consumed)) => Some(TakeView::Pon { from: 1, pai, consumed }),
            None => None,
        }
    } else if s.len() == 9 && s[0] == 'm' {
        match called_three(s, 1, 3, 5, 7) {
            Some((pai, consumed)) => Some(TakeView::Daiminkan { from: 3, pai, consumed }),
            None => None,
        }
    } else if s.len() == 9 && s[2] == 'm' {
        match called_three(s, 3, 0, 5, 7) {
            Some((pai, consumed)) => Some(TakeView::Daiminkan { from: 2, pai, consumed }),
            None => None,
        }
    } else if s.len() == 9 && s[6] == 'm' {
        match called_three(s, 7, 0, 2, 4) {
            Some((pai, consumed)) => Some(TakeView::Daiminkan { from: 1, pai, consumed }),
            None => None,
        }
    } else {
        None
    }
}

/// The take that a JSON value writes: a number is a draw, a text a call.
pub open spec fn take_of(j: JsonView) -> Option<TakeView> {
    match j {
        JsonView::Number(n) => match tenhou_tile(n as int) {
            Some(pai) => Some(TakeView::Draw { pai }),
            None => None,
        },
        JsonView::Text(s) => call_of(s),
        _ => None,
    }
}

/// What a text among the gifts writes. `r` is a reach with the tile behind
/// it, 60 for the tile just drawn. `k` is a kan added to a pon: the letter
/// stands where the letter of the pon stood, the added tile behind it. `a`
/// is a concealed kan, the letter before the last tile.
pub open spec fn declared_of(s: Seq<char>) -> Option<DiscardView> {
    if s.len() == 3 && s[0] == 'r' {
        if pair_value(s, 1) == Some(60int) {
            Some(DiscardView::ReachTsumogiri)
        } else {
            match pair_tile(s, 1) {
                Some(pai) => Some(DiscardView::Reach { pai }),
                None => None,
            }
        }
    } else if s.len() == 9 && s[0] == 'k' {
        match called_three(s, 1, 3, 5, 7) {
            Some((pai, consumed)) => Some(DiscardView::Kakan { pai, consumed }),
            None => None,
        }
    } else if s.len() == 9 && s[2] == 'k' {
        match called_three(s, 3, 0, 5, 7) {
            Some((pai, consumed)) => Some(DiscardView::Kakan { pai, consumed }),
            None => None,
        }
    } else if s.len() == 9 && s[4] == 'k' {
        match called_three(s, 5, 0, 2, 7) {
            Some((pai, consumed)) => Some(DiscardView::Kakan { pai, consumed }),
            None => None,
        }
    } else if s.len() == 9 && s[6] == 'a' {
        match called_three(s, 7, 0, 2, 4) {
            Some((last, others)) => Some(DiscardView::Ankan { consumed: others.push(last) }),
            None => None,
        }
    } else {
        None
    }
}

/// The gift that a JSON value writes: 60 is the tile just drawn, 0 nothing,
/// any other number a tile from the hand, a text a reach or a kan.
pub open spec fn discard_of(j: JsonView) -> Option<DiscardView> {
    match j {
        JsonView::Number(n) => if n == 60 {
            Some(DiscardView::Tsumogiri)
        } else if n == 0 {
            Some(DiscardView::Nothing)
        } else {
            match tenhou_tile(n as int) {
                Some(pai) => Some(DiscardView::Tile { pai }),
                None => None,
            }
        },
        JsonView::Text(s) => declared_of(s),
        _ => None,
    }
}

/// The takes of a JSON list.
pub open spec fn takes_of(j: JsonView) -> Option<Seq<TakeView>> {
    match j.items() {
        Some(items) => all_some(items.map_values(|item: JsonView| take_of(item))),
        None => None,
    }
}

/// The gifts of a JSON list.
pub open spec fn discards_of(j: JsonView) -> Option<Seq<DiscardView>> {
    match j.items() {
        Some(items) => all_some(items.map_values(|item: JsonView| discard_of(item))),
        None => None,
    }
}

/// The hand dealt to a seat: thirteen tiles.
pub open spec fn haipai_of(j: JsonView) -> Option<Seq<TileView>> {
    match tiles_of(j) {
        Some(tiles) => if tiles.len() == 13 {
            Some(tiles)
        } else {
            None
        },
        None => None,
    }
}

/// One seat of a round, from the three lists that the round holds for it.
pub open spec fn seat_part(haipai: JsonView, takes: JsonView, discards: JsonView, round: u32) -> Result<
    SeatView,
    ConvertError,
> {
    match haipai_of(haipai) {
        None => Err(mismatch(Part::Haipai, round)),
        Some(haipai) => match takes_of(takes) {
            None => Err(mismatch(Part::Takes, round)),
            Some(takes) => match discards_of(discards) {
                None => Err(mismatch(Part::Discards, round)),
                Some(discards) => Ok(SeatView { haipai, takes, discards }),
            },
        },
    }
}

/// The number of the round with its two counters.
pub open spec fn meta_of(j: JsonView) -> Option<(u8, u8, u8)> {
    match j.items() {
        Some(items) => if items.len() == 3 {
            match (small_of(items[0]), small_of(items[1]), small_of(items[2])) {
                (Some(kyoku), Some(honba), Some(kyotaku)) => Some((kyoku, honba, kyotaku)),
                _ => None,
            }
        } else {
            None
        },
        None => None,
    }
}

/// One win: the changes of the scores, and who won from whom.
pub open spec fn detail_of(deltas: JsonView, who: JsonView) -> Option<HoraView> {
    match (four_of(deltas), who.items()) {
        (Some(deltas), Some(items)) => if items.len() >= 2 {
            match (seat_of(items[0]), seat_of(items[1])) {
                (Some(who), Some(target)) => Some(HoraView { who, target, deltas }),
                _ => None,
            }
        } else {
            None
        },
        _ => None,
    }
}

/// The wins of a result, which holds two items for each win.
pub open spec fn details_of(items: Seq<JsonView>) -> Option<Seq<HoraView>> {
    if items.len() >= 3 && items.len() % 2 == 1 {
        all_some(
            Seq::new(
                ((items.len() - 1) / 2) as nat,
                |i: int| detail_of(items[2 * i + 1], items[2 * i + 2]),
            ),
        )
    } else {
        None
    }
}

/// The word for a win.
pub open spec fn hora_word() -> Seq<char> {
    "\u{548c}\u{4e86}"@
}

/// The result of a round. Its first item says how the round ended. A win
/// holds its wins behind that. Any other end is a draw, with the changes
/// of the scores behind it if there are any.
pub open spec fn end_of(j: JsonView) -> Option<EndView> {
    match j.items() {
        Some(items) => if items.len() == 0 {
            None
        } else {
            match items[0].text() {
                None => None,
                Some(word) => if word == hora_word() {
                    match details_of(items) {
                        Some(details) => Some(EndView::Hora { details }),
                        None => None,
                    }
                } else if items.len() == 1 {
                    Some(EndView::Ryukyoku { deltas: None })
                } else {
                    match four_of(items[1]) {
                        Some(deltas) => Some(EndView::Ryukyoku { deltas: Some(deltas) }),
                        None => None,
                    }
                },
            }
        },
        None => None,
    }
}

/// The four seats of a round.
pub open spec fn seats_of(items: Seq<JsonView>, round: u32) -> Result<Seq<SeatView>, ConvertError> {
    match seat_part(items[4], items[5], items[6], round) {
        Err(x) => Err(x),
        Ok(s0) => match seat_part(items[7], items[8], items[9], round) {
            Err(x) => Err(x),
            Ok(s1) => match seat_part(items[10], items[11], items[12], round) {
                Err(x) => Err(x),
                Ok(s2) => match seat_part(items[13], items[14], items[15], round) {
                    Err(x) => Err(x),
                    Ok(s3) => Ok(seq![s0, s1, s2, s3]),
                },
            },
        },
    }
}

/// One round of a log.
pub open spec fn round_of(j: JsonView, round: u32) -> Result<KyokuView, ConvertError> {
    match j.items() {
        None => Err(mismatch(Part::Log, round)),
        Some(items) => if items.len() != 17 {
            Err(mismatch(Part::Log, round))
        } else {
            match meta_of(items[0]) {
                None => Err(mismatch(Part::Meta, round)),
                Some((kyoku, honba, kyotaku)) => match four_of(items[1]) {
                    None => Err(mismatch(Part::Scores, round)),
                    Some(scores) => match tiles_of(items[2]) {
                        None => Err(mismatch(Part::Dora, round)),
                        Some(dora_indicators) => match tiles_of(items[3]) {
                            None => Err(mismatch(Part::Ura, round)),
                            Some(ura_indicators) => match seats_of(items, round) {
                                Err(x) => Err(x),
                                Ok(seats) => match end_of(items[16]) {
                                    None => Err(mismatch(Part::Result, round)),
                                    Some(end) => Ok(
                                        KyokuView {
                                            kyoku,
                                            honba,
                                            kyotaku,
                                            scores,
                                            dora_indicators,
                                            ura_indicators,
                                            seats,
                                            end,
                                        },
                                    ),
                                },
                            },
                        },
                    },
                },
            }
        },
    }
}

/// The first `n` rounds of a list of rounds, or the failure of the first
/// that fails.
pub open spec fn rounds_of(items: Seq<JsonView>, n: int) -> Result<Seq<KyokuView>, ConvertError>
    decreases n,
{
    if n <= 0 {
        Ok(Seq::empty())
    } else {
        match rounds_of(items, n - 1) {
            Err(x) => Err(x),
            Ok(rounds) => match round_of(items[n - 1], round_number(n - 1)) {
                Err(x) => Err(x),
                Ok(round) => Ok(rounds.push(round)),
            },
        }
    }
}

/// The four names of a log.
pub open spec fn names_of(j: JsonView) -> Option<Seq<Seq<char>>> {
    match j.items() {
        Some(items) => match all_some(items.map_values(|item: JsonView| item.text())) {
            Some(names) => if names.len() == 4 {
                Some(names)
            } else {
                None
            },
            None => None,
        },
        None => None,
    }
}

/// Whether a rule names a number other than 0 under a key.
pub open spec fn rule_set(rule: JsonView, key: Seq<char>) -> bool {
    match rule.field(key) {
        Some(value) => match value.number() {
            Some(n) => n != 0,
            None => false,
        },
        None => false,
    }
}

/// Whether the rules have red fives: whether one of `aka`, `aka51`, `aka52`
/// and `aka53` is set.
pub open spec fn aka_of(rule: JsonView) -> bool {
    rule_set(rule, "aka"@) || rule_set(rule, "aka51"@) || rule_set(rule, "aka52"@) || rule_set(
        rule,
        "aka53"@,
    )
}

/// The sign for east, which the name of the rules of a game of the east
/// wind alone holds.
pub open spec fn east_sign() -> char {
    '\u{6771}'
}

/// The first round that the length of the game names: 4 where the name of
/// the rules holds the sign for east, 0 otherwise.
pub open spec fn kyoku_first_of(disp: Seq<char>) -> u8 {
    if disp.contains(east_sign()) {
        4
    } else {
        0
    }
}

/// The name of the rules.
pub open spec fn disp_of(rule: JsonView) -> Option<Seq<char>> {
    match rule.field("disp"@) {
        Some(disp) => disp.text(),
        None => None,
    }
}

/// The list of the rounds.
pub open spec fn rounds_list(j: JsonView) -> Option<Seq<JsonView>> {
    match j.field("log"@) {
        Some(log) => log.items(),
        None => None,
    }
}

/// The log that a JSON document holds.
pub open spec fn log_of(j: JsonView) -> Result<LogView, ConvertError> {
    match j.field("name"@) {
        None => Err(mismatch(Part::Names, 0)),
        Some(name) => match names_of(name) {
            None => Err(mismatch(Part::Names, 0)),
            Some(names) => match j.field("rule"@) {
                None => Err(mismatch(Part::Rule, 0)),
                Some(rule) => match disp_of(rule) {
                    None => Err(mismatch(Part::Rule, 0)),
                    Some(disp) => match rounds_list(j) {
                        None => Err(mismatch(Part::Log, 0)),
                        Some(items) => match rounds_of(items, items.len() as int) {
                            Err(x) => Err(x),
                            Ok(kyokus) => Ok(
                                LogView {
                                    names,
                                    kyoku_first: kyoku_first_of(disp),
                                    aka: aka_of(rule),
                                    kyokus,
                                },
                            ),
                        },
                    },
                },
            },
        },
    }
}

/// The log that a text holds.
pub open spec fn log_of_text(text: Seq<char>) -> Result<LogView, ConvertError> {
    match json_document(text) {
        None => Err(mismatch(Part::Document, 0)),
        Some(j) => log_of(j),
    }
}

/// What a take that may be absent holds.
pub open spec fn take_view(take: Option<Take>) -> Option<TakeView> {
    match take {
        Some(take) => Some(take@),
        None => None,
    }
}

/// What a gift that may be absent holds.
pub open spec fn discard_view(discard: Option<Discard>) -> Option<DiscardView> {
    match discard {
        Some(discard) => Some(discard@),
        None => None,
    }
}

/// Reads the tile that a JSON number names.
fn read_tile(j: &Json) -> (r: Option<Tile>)
    ensures
        r.deep_view() == tile_of(j@),
{
    match j.number() {
        Some(n) => Tile::from_tenhou_id(n),
        None => None,
    }
}

/// Reads a list of tile numbers.
fn read_tiles(j: &Json) -> (r: Option<Vec<Tile>>)
    ensures
        markers_view(r) == tiles_of(j@),
{
    let items = match j.items() {
        Some(items) => items,
        None => {
            return None;
        },
    };
    let ghost values = list_views(items@).map_values(|item: JsonView| tile_of(item));
    proof {
        lemma_list_views(items@);
    }
    let mut out: Vec<Tile> = Vec::new();
    let mut i: usize = 0;
    while i < items.len()
        invariant
            i <= items@.len(),
            j@.items() == Some(list_views(items@)),
            values == list_views(items@).map_values(|item: JsonView| tile_of(item)),
            list_views(items@).len() == items@.len(),
            forall|k: int|
                0 <= k < items@.len() ==> list_views(items@)[k] == (#[trigger] items@[k])@,
            out@.len() == i,
            forall|k: int| 0 <= k < i ==> values[k] == Some((#[trigger] out@[k])@),
        decreases items@.len() - i,
    {
        assert(list_views(items@)[i as int] == items@[i as int]@);
        match read_tile(&items[i]) {
            Some(tile) => {
                out.push(tile);
            },
            None => {
                assert(values[i as int] is None);
                return None;
            },
        }
        i = i + 1;
    }
    assert forall|k: int| 0 <= k < values.len() implies (#[trigger] values[k]) is Some by {
        assert(values[k] == Some(out@[k]@));
    }
    assert(tile_views(out@) =~= values.map_values(|o: Option<TileView>| o.unwrap()));
    Some(out)
}

/// Reads a small number.
fn read_small(j: &Json) -> (r: Option<u8>)
    ensures
        r == small_of(j@),
{
    match j.number() {
        Some(n) => if 0 <= n && n <= 255 {
            Some(n as u8)
        } else {
            None
        },
        None => None,
    }
}

/// Reads a seat.
fn read_seat(j: &Json) -> (r: Option<u8>)
    ensures
        r == seat_of(j@),
{
    match read_small(j) {
        Some(n) => if n < 4 {
            Some(n)
        } else {
            None
        },
        None => None,
    }
}

/// Reads points.
fn read_points(j: &Json) -> (r: Option<i32>)
    ensures
        r == points_of(j@),
{
    match j.number() {
        Some(n) => if -0x8000_0000 <= n && n <= 0x7fff_ffff {
            Some(n as i32)
        } else {
            None
        },
        None => None,
    }
}

/// Reads a list of four numbers.
fn read_four(j: &Json) -> (r: Option<[i32; 4]>)
    ensures
        points_view(r) == four_of(j@),
{
    let items = match j.items() {
        Some(items) => items,
        None => {
            return None;
        },
    };
    let ghost values = list_views(items@).map_values(|item: JsonView| points_of(item));
    proof {
        lemma_list_views(items@);
    }
    let mut out: Vec<i32> = Vec::new();
    let mut i: usize = 0;
    while i < items.len()
        invariant
            i <= items@.len(),
            j@.items() == Some(list_views(items@)),
            values == list_views(items@).map_values(|item: JsonView| points_of(item)),
            list_views(items@).len() == items@.len(),
            forall|k: int|
                0 <= k < items@.len() ==> list_views(items@)[k] == (#[trigger] items@[k])@,
            out@.len() == i,
            forall|k: int| 0 <= k < i ==> values[k] == Some(#[trigger] out@[k]),
        decreases items@.len() - i,
    {
        assert(list_views(items@)[i as int] == items@[i as int]@);
        match read_points(&items[i]) {
            Some(n) => {
                out.push(n);
            },
            None => {
                assert(values[i as int] is None);
                return None;
            },
        }
        i = i + 1;
    }
    assert forall|k: int| 0 <= k < values.len() implies (#[trigger] values[k]) is Some by {
        assert(values[k] == Some(out@[k]));
    }
    assert(out@ =~= values.map_values(|o: Option<i32>| o.unwrap()));
    if out.len() == 4 {
        Some(four_points(&out))
    } else {
        None
    }
}

/// Reads the number that two digits write at a place of a text.
fn pair_number(s: &[char], at: usize) -> (r: Option<u8>)
    ensures
        match r {
            Some(n) => pair_value(s@, at as int) == Some(n as int),
            None => pair_value(s@, at as int) is None,
        },
{
    if s.len() < 2 || at > s.len() - 2 {
        return None;
    }
    let a = s[at] as u32;
    let b = s[at + 1] as u32;
    if 48 <= a && a <= 57 && 48 <= b && b <= 57 {
        Some(((a - 48) * 10 + (b - 48)) as u8)
    } else {
        None
    }
}

/// Reads the tile that two digits name at a place of a text.
fn pair(s: &[char], at: usize) -> (r: Option<Tile>)
    ensures
        r.deep_view() == pair_tile(s@, at as int),
{
    match pair_number(s, at) {
        Some(n) => Tile::from_tenhou_id(n as i64),
        None => None,
    }
}

/// Reads the tile called and the two tiles from the hand.
fn two_called(s: &[char], pai: usize, first: usize, second: usize) -> (r: Option<(Tile, [Tile; 2])>)
    ensures
        match r {
            Some((p, consumed)) => called_two(s@, pai as int, first as int, second as int) == Some(
                (p@, tile_views(consumed@)),
            ),
            None => called_two(s@, pai as int, first as int, second as int) is None,
        },
{
    match (pair(s, pai), pair(s, first), pair(s, second)) {
        (Some(p), Some(a), Some(b)) => {
            let consumed = [a, b];
            assert(tile_views(consumed@) =~= seq![a@, b@]);
            Some((p, consumed))
        },
        _ => None,
    }
}

/// Reads the tile called or added and the three tiles from the hand.
fn three_called(s: &[char], pai: usize, first: usize, second: usize, third: usize) -> (r: Option<
    (Tile, [Tile; 3]),
>)
    ensures
        match r {
            Some((p, consumed)) => called_three(
                s@,
                pai as int,
                first as int,
                second as int,
                third as int,
            ) == Some((p@, tile_views(consumed@))),
            None => called_three(s@, pai as int, first as int, second as int, third as int)
                is None,
        },
{
    match (pair(s, pai), pair(s, first), pair(s, second), pair(s, third)) {
        (Some(p), Some(a), Some(b), Some(c)) => {
            let consumed = [a, b, c];
            assert(tile_views(consumed@) =~= seq![a@, b@, c@]);
            Some((p, consumed))
        },
        _ => None,
    }
}

/// Reads the call that a text among the takes writes.
fn read_call(s: &[char]) -> (r: Option<Take>)
    ensures
        take_view(r) == call_of(s@),
{
    if s.len() == 7 && s[0] == 'c' {
        match two_called(s, 1, 3, 5) {
            Some((pai, consumed)) => Some(Take::Chi { pai, consumed }),
            None => None,
        }
    } else if s.len() == 7 && s[0] == 'p' {
        match two_called(s, 1, 3, 5) {
            Some((pai, consumed)) => Some(Take::Pon { from: 3, pai, consumed }),
            None => None,
        }
    } else if s.len() == 7 && s[2] == 'p' {
        match two_called(s, 3, 0, 5) {
            Some((pai, consumed)) => Some(Take::Pon { from: 2, pai, consumed }),
            None => None,
        }
    } else if s.len() == 7 && s[4] == 'p' {
        match two_called(s, 5, 0, 2) {
            Some((pai, consumed)) => Some(Take::Pon { from: 1, pai, consumed }),
            None => None,
        }
    } else if s.len() == 9 && s[0] == 'm' {
        match three_called(s, 1, 3, 5, 7) {
            Some((pai, consumed)) => Some(Take::Daiminkan { from: 3, pai, consumed }),
            None => None,
        }
    } else if s.len() == 9 && s[2] == 'm' {
        match three_called(s, 3, 0, 5, 7) {
            Some((pai, consumed)) => Some(Take::Daiminkan { from: 2, pai, consumed }),
            None => None,
        }
    } else if s.len() == 9 && s[6] == 'm' {
        match three_called(s, 7, 0, 2, 4) {
            Some((pai, consumed)) => Some(Take::Daiminkan { from: 1, pai, consumed }),
            None => None,
        }
    } else {
        None
    }
}

/// Reads a take.
fn read_take(j: &Json) -> (r: Option<Take>)
    ensures
        take_view(r) == take_of(j@),
{
    match j {
        Json::Number(n) => match Tile::from_tenhou_id(*n) {
            Some(pai) => Some(Take::Draw { pai }),
            None => None,
        },
        Json::Text(s) => {
            let chars = chars_of(s.as_str());
            read_call(chars.as_slice())
        },
        _ => None,
    }
}

/// Reads what a text among the gifts writes.
fn read_declared(s: &[char]) -> (r: Option<Discard>)
    ensures
        discard_view(r) == declared_of(s@),
{
    if s.len() == 3 && s[0] == 'r' {
        match pair_number(s, 1) {
            Some(n) => if n == 60 {
                Some(Discard::ReachTsumogiri)
            } else {
                match Tile::from_tenhou_id(n as i64) {
                    Some(pai) => Some(Discard::Reach { pai }),
                    None => None,
                }
            },
            None => None,
        }
    } else if s.len() == 9 && s[0] == 'k' {
        match three_called(s, 1, 3, 5, 7) {
            Some((pai, consumed)) => Some(Discard::Kakan { pai, consumed }),
            None => None,
        }
    } else if s.len() == 9 && s[2] == 'k' {
        match three_called(s, 3, 0, 5, 7) {
            Some((pai, consumed)) => Some(Discard::Kakan { pai, consumed }),
            None => None,
        }
    } else if s.len() == 9 && s[4] == 'k' {
        match three_called(s, 5, 0, 2, 7) {
            Some((pai, consumed)) => Some(Discard::Kakan { pai, consumed }),
            None => None,
        }
    } else if s.len() == 9 && s[6] == 'a' {
        match three_called(s, 7, 0, 2, 4) {
            Some((last, others)) => {
                let consumed = [others[0], others[1], others[2], last];
                assert(tile_views(consumed@) =~= tile_views(others@).push(last@));
                Some(Discard::Ankan { consumed })
            },
            None => None,
        }
    } else {
        None
    }
}

/// Reads a gift.
fn read_discard(j: &Json) -> (r: Option<Discard>)
    ensures
        discard_view(r) == discard_of(j@),
{
    match j {
        Json::Number(n) => if *n == 60 {
            Some(Discard::Tsumogiri)
        } else if *n == 0 {
            Some(Discard::Nothing)
        } else {
            match Tile::from_tenhou_id(*n) {
                Some(pai) => Some(Discard::Tile { pai }),
                None => None,
            }
        },
        Json::Text(s) => {
            let chars = chars_of(s.as_str());
            read_declared(chars.as_slice())
        },
        _ => None,
    }
}

/// What takes that may be absent hold.
pub open spec fn takes_view(takes: Option<Vec<Take>>) -> Option<Seq<TakeView>> {
    match takes {
        Some(takes) => Some(take_views(takes@)),
        None => None,
    }
}

/// What gifts that may be absent hold.
pub open spec fn discards_view(discards: Option<Vec<Discard>>) -> Option<Seq<DiscardView>> {
    match discards {
        Some(discards) => Some(discard_views(discards@)),
        None => None,
    }
}

/// Reads the takes of a seat.
fn read_takes(j: &Json) -> (r: Option<Vec<Take>>)
    ensures
        takes_view(r) == takes_of(j@),
{
    let items = match j.items() {
        Some(items) => items,
        None => {
            return None;
        },
    };
    let ghost values = list_views(items@).map_values(|item: JsonView| take_of(item));
    proof {
        lemma_list_views(items@);
    }
    let mut out: Vec<Take> = Vec::new();
    let mut i: usize = 0;
    while i < items.len()
        invariant
            i <= items@.len(),
            j@.items() == Some(list_views(items@)),
            values == list_views(items@).map_values(|item: JsonView| take_of(item)),
            list_views(items@).len() == items@.len(),
            forall|k: int|
                0 <= k < items@.len() ==> list_views(items@)[k] == (#[trigger] items@[k])@,
            out@.len() == i,
            forall|k: int| 0 <= k < i ==> values[k] == Some((#[trigger] out@[k])@),
        decreases items@.len() - i,
    {
        assert(list_views(items@)[i as int] == items@[i as int]@);
        match read_take(&items[i]) {
            Some(take) => {
                out.push(take);
            },
            None => {
                assert(values[i as int] is None);
                return None;
            },
        }
        i = i + 1;
    }
    assert forall|k: int| 0 <= k < values.len() implies (#[trigger] values[k]) is Some by {
        assert(values[k] == Some(out@[k]@));
    }
    assert(take_views(out@) =~= values.map_values(|o: Option<TakeView>| o.unwrap()));
    Some(out)
}

/// Reads the gifts of a seat.
fn read_discards(j: &Json) -> (r: Option<Vec<Discard>>)
    ensures
        discards_view(r) == discards_of(j@),
{
    let items = match j.items() {
        Some(items) => items,
        None => {
            return None;
        },
    };
    let ghost values = list_views(items@).map_values(|item: JsonView| discard_of(item));
    proof {
        lemma_list_views(items@);
    }
    let mut out: Vec<Discard> = Vec::new();
    let mut i: usize = 0;
    while i < items.len()
        invariant
            i <= items@.len(),
            j@.items() == Some(list_views(items@)),
            values == list_views(items@).map_values(|item: JsonView| discard_of(item)),
            list_views(items@).len() == items@.len(),
            forall|k: int|
                0 <= k < items@.len() ==> list_views(items@)[k] == (#[trigger] items@[k])@,
            out@.len() == i,
            forall|k: int| 0 <= k < i ==> values[k] == Some((#[trigger] out@[k])@),
        decreases items@.len() - i,
    {
        assert(list_views(items@)[i as int] == items@[i as int]@);
        match read_discard(&items[i]) {
            Some(discard) => {
                out.push(discard);
            },
            None => {
                assert(values[i as int] is None);
                return None;
            },
        }
        i = i + 1;
    }
    assert forall|k: int| 0 <= k < values.len() implies (#[trigger] values[k]) is Some by {
        assert(values[k] == Some(out@[k]@));
    }
    assert(discard_views(out@) =~= values.map_values(|o: Option<DiscardView>| o.unwrap()));
    Some(out)
}

/// Reads one seat of a round from its three lists.
fn read_seat_part(haipai: &Json, takes: &Json, discards: &Json, round: u32) -> (r: Result<
    Seat,
    ConvertError,
>)
    ensures
        match seat_part(haipai@, takes@, discards@, round) {
            Ok(seat) => r is Ok && r.unwrap()@ == seat,
            Err(x) => r == Err::<Seat, ConvertError>(x),
        },
{
    let haipai = match read_tiles(haipai) {
        Some(tiles) => if tiles.len() == 13 {
            thirteen_tiles(&tiles)
        } else {
            return Err(ConvertError::SchemaMismatch { part: Part::Haipai, round });
        },
        None => {
            return Err(ConvertError::SchemaMismatch { part: Part::Haipai, round });
        },
    };
    let takes = match read_takes(takes) {
        Some(takes) => takes,
        None => {
            return Err(ConvertError::SchemaMismatch { part: Part::Takes, round });
        },
    };
    let discards = match read_discards(discards) {
        Some(discards) => discards,
        None => {
            return Err(ConvertError::SchemaMismatch { part: Part::Discards, round });
        },
    };
    Ok(Seat { haipai, takes, discards })
}

/// Reads the number of the round with its two counters.
fn read_meta(j: &Json) -> (r: Option<(u8, u8, u8)>)
    ensures
        r == meta_of(j@),
{
    let items = match j.items() {
        Some(items) => items,
        None => {
            return None;
        },
    };
    proof {
        lemma_list_views(items@);
    }
    if items.len() != 3 {
        return None;
    }
    assert(list_views(items@)[0] == items@[0]@ && list_views(items@)[1] == items@[1]@
        && list_views(items@)[2] == items@[2]@);
    match (read_small(&items[0]), read_small(&items[1]), read_small(&items[2])) {
        (Some(kyoku), Some(honba), Some(kyotaku)) => Some((kyoku, honba, kyotaku)),
        _ => None,
    }
}

/// What a win that may be absent holds.
pub open spec fn detail_view(detail: Option<HoraDetail>) -> Option<HoraView> {
    match detail {
        Some(detail) => Some(detail@),
        None => None,
    }
}

/// Reads one win.
fn read_detail(deltas: &Json, who: &Json) -> (r: Option<HoraDetail>)
    ensures
        detail_view(r) == detail_of(deltas@, who@),
{
    let deltas = match read_four(deltas) {
        Some(deltas) => deltas,
        None => {
            return None;
        },
    };
    let items = match who.items() {
        Some(items) => items,
        None => {
            return None;
        },
    };
    proof {
        lemma_list_views(items@);
    }
    if items.len() < 2 {
        return None;
    }
    assert(list_views(items@)[0] == items@[0]@ && list_views(items@)[1] == items@[1]@);
    match (read_seat(&items[0]), read_seat(&items[1])) {
        (Some(who), Some(target)) => Some(HoraDetail { who, target, deltas }),
        _ => None,
    }
}

/// What wins that may be absent hold.
pub open spec fn details_view(details: Option<Vec<HoraDetail>>) -> Option<Seq<HoraView>> {
    match details {
        Some(details) => Some(hora_views(details@)),
        None => None,
    }
}

/// Reads the wins of a result.
fn read_details(items: &Vec<Json>) -> (r: Option<Vec<HoraDetail>>)
    ensures
        details_view(r) == details_of(list_views(items@)),
{
    proof {
        lemma_list_views(items@);
    }
    if items.len() < 3 || items.len() % 2 != 1 {
        return None;
    }
    let ghost views = list_views(items@);
    let count = (items.len() - 1) / 2;
    let ghost values = Seq::new(
        count as nat,
        |i: int| detail_of(views[2 * i + 1], views[2 * i + 2]),
    );
    let mut out: Vec<HoraDetail> = Vec::new();
    let mut i: usize = 0;
    while i < count
        invariant
            i <= count,
            count == (items@.len() - 1) / 2,
            items@.len() % 2 == 1,
            3 <= items@.len() <= usize::MAX,
            views == list_views(items@),
            views.len() == items@.len(),
            forall|k: int| 0 <= k < items@.len() ==> views[k] == (#[trigger] items@[k])@,
            values == Seq::new(count as nat, |i: int| detail_of(views[2 * i + 1], views[2 * i + 2])),
            out@.len() == i,
            forall|k: int| 0 <= k < i ==> values[k] == Some((#[trigger] out@[k])@),
        decreases count - i,
    {
        assert(2 * i + 2 < items@.len());
        assert(views[2 * i + 1] == items@[2 * i + 1]@);
        assert(views[2 * i + 2] == items@[2 * i + 2]@);
        match read_detail(&items[2 * i + 1], &items[2 * i + 2]) {
            Some(detail) => {
                out.push(detail);
            },
            None => {
                assert(values[i as int] is None);
                return None;
            },
        }
        i = i + 1;
    }
    assert forall|k: int| 0 <= k < values.len() implies (#[trigger] values[k]) is Some by {
        assert(values[k] == Some(out@[k]@));
    }
    assert(hora_views(out@) =~= values.map_values(|o: Option<HoraView>| o.unwrap()));
    Some(out)
}

/// What the end of a round that may be absent holds.
pub open spec fn end_view(end: Option<EndStatus>) -> Option<EndView> {
    match end {
        Some(end) => Some(end@),
        None => None,
    }
}

/// Whether a text is the word for a win.
fn is_hora_word(text: &str) -> (b: bool)
    ensures
        b == (text@ == hora_word()),
{
    let word = "\u{548c}\u{4e86}";
    let chars = chars_of(text);
    let n = word.unicode_len();
    if chars.len() != n {
        return false;
    }
    let mut i: usize = 0;
    while i < n
        invariant
            i <= n,
            n == word@.len(),
            n == chars@.len(),
            word@ == hora_word(),
            chars@ == text@,
            forall|k: int| 0 <= k < i ==> chars@[k] == word@[k],
        decreases n - i,
    {
        if chars[i] != word.get_char(i) {
            return false;
        }
        i = i + 1;
    }
    assert(chars@ =~= word@);
    true
}

/// Reads the result of a round.
fn read_end(j: &Json) -> (r: Option<EndStatus>)
    ensures
        end_view(r) == end_of(j@),
{
    let items = match j.items() {
        Some(items) => items,
        None => {
            return None;
        },
    };
    proof {
        lemma_list_views(items@);
    }
    if items.len() == 0 {
        return None;
    }
    assert(list_views(items@)[0] == items@[0]@);
    let word = match items[0].text() {
        Some(word) => word,
        None => {
            return None;
        },
    };
    if is_hora_word(word.as_str()) {
        match read_details(items) {
            Some(details) => Some(EndStatus::Hora { details }),
            None => None,
        }
    } else if items.len() == 1 {
        Some(EndStatus::Ryukyoku { deltas: None })
    } else {
        assert(list_views(items@)[1] == items@[1]@);
        match read_four(&items[1]) {
            Some(deltas) => Some(EndStatus::Ryukyoku { deltas: Some(deltas) }),
            None => None,
        }
    }
}

/// Reads the four seats of a round.
fn read_seats(items: &Vec<Json>, round: u32) -> (r: Result<[Seat; 4], ConvertError>)
    requires
        items@.len() == 17,
    ensures
        match seats_of(list_views(items@), round) {
            Ok(seats) => r is Ok && seat_views(r.unwrap()@) == seats,
            Err(x) => r == Err::<[Seat; 4], ConvertError>(x),
        },
{
    proof {
        lemma_list_views(items@);
        let views = list_views(items@);
        assert(views[4] == items@[4]@ && views[5] == items@[5]@ && views[6] == items@[6]@);
        assert(views[7] == items@[7]@ && views[8] == items@[8]@ && views[9] == items@[9]@);
        assert(views[10] == items@[10]@ && views[11] == items@[11]@ && views[12] == items@[12]@);
        assert(views[13] == items@[13]@ && views[14] == items@[14]@ && views[15] == items@[15]@);
    }
    let s0 = read_seat_part(&items[4], &items[5], &items[6], round)?;
    let s1 = read_seat_part(&items[7], &items[8], &items[9], round)?;
    let s2 = read_seat_part(&items[10], &items[11], &items[12], round)?;
    let s3 = read_seat_part(&items[13], &items[14], &items[15], round)?;
    let ghost expected = seq![s0@, s1@, s2@, s3@];
    let seats = [s0, s1, s2, s3];
    assert(seat_views(seats@) =~= expected);
    Ok(seats)
}

/// Reads one round of a log.
fn read_round(j: &Json, round: u32) -> (r: Result<Kyoku, ConvertError>)
    ensures
        match round_of(j@, round) {
            Ok(kyoku) => r is Ok && r.unwrap()@ == kyoku,
            Err(x) => r == Err::<Kyoku, ConvertError>(x),
        },
{
    let items = match j.items() {
        Some(items) => items,
        None => {
            return Err(ConvertError::SchemaMismatch { part: Part::Log, round });
        },
    };
    proof {
        lemma_list_views(items@);
    }
    if items.len() != 17 {
        return Err(ConvertError::SchemaMismatch { part: Part::Log, round });
    }
    proof {
        let views = list_views(items@);
        assert(views[0] == items@[0]@ && views[1] == items@[1]@ && views[2] == items@[2]@
            && views[3] == items@[3]@ && views[16] == items@[16]@);
    }
    let (kyoku, honba, kyotaku) = match read_meta(&items[0]) {
        Some(meta) => meta,
        None => {
            return Err(ConvertError::SchemaMismatch { part: Part::Meta, round });
        },
    };
    let scores = match read_four(&items[1]) {
        Some(scores) => scores,
        None => {
            return Err(ConvertError::SchemaMismatch { part: Part::Scores, round });
        },
    };
    let dora_indicators = match read_tiles(&items[2]) {
        Some(tiles) => tiles,
        None => {
            return Err(ConvertError::SchemaMismatch { part: Part::Dora, round });
        },
    };
    let ura_indicators = match read_tiles(&items[3]) {
        Some(tiles) => tiles,
        None => {
            return Err(ConvertError::SchemaMismatch { part: Part::Ura, round });
        },
    };
    let seats = read_seats(items, round)?;
    let end = match read_end(&items[16]) {
        Some(end) => end,
        None => {
            return Err(ConvertError::SchemaMismatch { part: Part::Result, round });
        },
    };
    Ok(Kyoku { kyoku, honba, kyotaku, scores, dora_indicators, ura_indicators, seats, end })
}

/// What names that may be absent hold.
pub open spec fn names_view(names: Option<[String; 4]>) -> Option<Seq<Seq<char>>> {
    match names {
        Some(names) => Some(string_views(names@)),
        None => None,
    }
}

/// Reads the four names of a log.
fn read_names(j: &Json) -> (r: Option<[String; 4]>)
    ensures
        names_view(r) == names_of(j@),
{
    let items = match j.items() {
        Some(items) => items,
        None => {
            return None;
        },
    };
    let ghost values = list_views(items@).map_values(|item: JsonView| item.text());
    proof {
        lemma_list_views(items@);
    }
    let mut out: Vec<String> = Vec::new();
    let mut i: usize = 0;
    while i < items.len()
        invariant
            i <= items@.len(),
            j@.items() == Some(list_views(items@)),
            values == list_views(items@).map_values(|item: JsonView| item.text()),
            list_views(items@).len() == items@.len(),
            forall|k: int|
                0 <= k < items@.len() ==> list_views(items@)[k] == (#[trigger] items@[k])@,
            out@.len() == i,
            forall|k: int| 0 <= k < i ==> values[k] == Some((#[trigger] out@[k])@),
        decreases items@.len() - i,
    {
        assert(list_views(items@)[i as int] == items@[i as int]@);
        match items[i].text() {
            Some(name) => {
                out.push(name.clone());
            },
            None => {
                assert(values[i as int] is None);
                return None;
            },
        }
        i = i + 1;
    }
    assert forall|k: int| 0 <= k < values.len() implies (#[trigger] values[k]) is Some by {
        assert(values[k] == Some(out@[k]@));
    }
    assert(string_views(out@) =~= values.map_values(|o: Option<Seq<char>>| o.unwrap()));
    if out.len() == 4 {
        let names = [out[0].clone(), out[1].clone(), out[2].clone(), out[3].clone()];
        assert(string_views(names@) =~= string_views(out@));
        Some(names)
    } else {
        None
    }
}

/// Whether a rule names a number other than 0 under a key.
fn is_rule_set(rule: &Json, key: &str) -> (b: bool)
    ensures
        b == rule_set(rule@, key@),
{
    match rule.field(key) {
        Some(value) => match value.number() {
            Some(n) => n != 0,
            None => false,
        },
        None => false,
    }
}

/// Whether the rules have red fives.
fn read_aka(rule: &Json) -> (b: bool)
    ensures
        b == aka_of(rule@),
{
    is_rule_set(rule, "aka") || is_rule_set(rule, "aka51") || is_rule_set(rule, "aka52")
        || is_rule_set(rule, "aka53")
}

/// The first round that the length of the game names.
fn read_kyoku_first(disp: &str) -> (n: u8)
    ensures
        n == kyoku_first_of(disp@),
{
    let chars = chars_of(disp);
    let mut i: usize = 0;
    while i < chars.len()
        invariant
            i <= chars@.len(),
            chars@ == disp@,
            forall|k: int| 0 <= k < i ==> chars@[k] != east_sign(),
        decreases chars@.len() - i,
    {
        if chars[i] == '\u{6771}' {
            assert(disp@[i as int] == east_sign());
            return 4;
        }
        i = i + 1;
    }
    0
}

/// Reads the rounds of a log.
fn read_rounds(items: &Vec<Json>) -> (r: Result<Vec<Kyoku>, ConvertError>)
    ensures
        match rounds_of(list_views(items@), items@.len() as int) {
            Ok(kyokus) => r is Ok && kyoku_views(r.unwrap()@) == kyokus,
            Err(x) => r == Err::<Vec<Kyoku>, ConvertError>(x),
        },
{
    let ghost views = list_views(items@);
    proof {
        lemma_list_views(items@);
    }
    let mut out: Vec<Kyoku> = Vec::new();
    let mut i: usize = 0;
    assert(kyoku_views(out@) =~= Seq::<KyokuView>::empty());
    while i < items.len()
        invariant
            i <= items@.len(),
            views == list_views(items@),
            views.len() == items@.len(),
            forall|k: int| 0 <= k < items@.len() ==> views[k] == (#[trigger] items@[k])@,
            rounds_of(views, i as int) == Ok::<Seq<KyokuView>, ConvertError>(kyoku_views(out@)),
        decreases items@.len() - i,
    {
        assert(views[i as int] == items@[i as int]@);
        let round = if i <= 0xffff_ffff {
            i as u32
        } else {
            0xffff_ffff
        };
        match read_round(&items[i], round) {
            Err(x) => {
                proof {
                    lemma_rounds_of_fail_early(views, i + 1, items@.len() as int);
                }
                return Err(x);
            },
            Ok(kyoku) => {
                let ghost before = kyoku_views(out@);
                out.push(kyoku);
                assert(kyoku_views(out@) =~= before.push(kyoku@));
            },
        }
        i = i + 1;
    }
    Ok(out)
}

/// A list of rounds fails as its first rounds fail.
pub proof fn lemma_rounds_of_fail_early(items: Seq<JsonView>, n: int, m: int)
    requires
        0 <= n <= m,
        rounds_of(items, n) is Err,
    ensures
        rounds_of(items, m) == rounds_of(items, n),
    decreases m - n,
{
    if n < m {
        lemma_rounds_of_fail_early(items, n, m - 1);
    }
}

impl Log {
    /// Reads a log from a JSON value.
    pub fn from_json(j: &Json) -> (r: Result<Log, ConvertError>)
        ensures
            match log_of(j@) {
                Ok(log) => r is Ok && r.unwrap()@ == log,
                Err(x) => r == Err::<Log, ConvertError>(x),
            },
    {
        let names = match j.field("name") {
            None => {
                return Err(ConvertError::SchemaMismatch { part: Part::Names, round: 0 });
            },
            Some(name) => match read_names(name) {
                None => {
                    return Err(ConvertError::SchemaMismatch { part: Part::Names, round: 0 });
                },
                Some(names) => names,
            },
        };
        let rule = match j.field("rule") {
            None => {
                return Err(ConvertError::SchemaMismatch { part: Part::Rule, round: 0 });
            },
            Some(rule) => rule,
        };
        let bad_rule = ConvertError::SchemaMismatch { part: Part::Rule, round: 0 };
        let kyoku_first = match rule.field("disp") {
            Some(disp) => match disp.text() {
                Some(disp) => read_kyoku_first(disp.as_str()),
                None => {
                    return Err(bad_rule);
                },
            },
            None => {
                return Err(bad_rule);
            },
        };
        let bad_log = ConvertError::SchemaMismatch { part: Part::Log, round: 0 };
        let kyokus = match j.field("log") {
            Some(log) => match log.items() {
                Some(items) => match read_rounds(items) {
                    Ok(kyokus) => {
                        proof {
                            lemma_list_views(items@);
                        }
                        kyokus
                    },
                    Err(x) => {
                        proof {
                            lemma_list_views(items@);
                        }
                        return Err(x);
                    },
                },
                None => {
                    return Err(bad_log);
                },
            },
            None => {
                return Err(bad_log);
            },
        };
        Ok(Log { names, kyoku_first, aka: read_aka(rule), kyokus })
    }

    /// Reads a log from a text.
    pub fn from_json_str(text: &str) -> (r: Result<Log, ConvertError>)
        ensures
            match log_of_text(text@) {
                Ok(log) => r is Ok && r.unwrap()@ == log,
                Err(x) => r == Err::<Log, ConvertError>(x),
            },
    {
        match parse_json(text) {
            None => Err(ConvertError::SchemaMismatch { part: Part::Document, round: 0 }),
            Some(j) => Log::from_json(&j),
        }
    }
}

} // verus!
