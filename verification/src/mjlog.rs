//! What the elements of an mjlog record say.
//!
//! Each function reads the attributes of one kind of element and fails
//! where an attribute that it needs is absent or holds no value of its
//! form. Nothing is made up in place of what a record lacks.

use crate::error::{Attr, ConvertError, Tag};
use crate::event::{hand_views, markers_view, points_view};
use crate::meld::{
    chi_meld, kakan_meld, kan_meld, meld_kind, meld_kind_of, meld_source, parse_chi, parse_kakan,
    parse_kan, parse_pon, pon_meld, MeldKind,
};
use crate::percent::{decode_name, name_of_decoded, percent_decoded};
use crate::text::{
    chars_of, parse_i32, parse_i32_text, parse_u16, parse_u16_text, parse_u8, parse_u8_text,
    split_at_commas, split_commas, text_is, texts,
};
use crate::tile::{mjlog_tile, tile_views, Tile, TileView};
use crate::xml::{optional, present, required, Element, ElementView};
use vstd::prelude::*;

verus! {

/// The tile of a physical tile number, with or without the red-five rule.
pub fn translate_mjlog_tile(tile: u8, red: bool) -> (r: Option<Tile>)
    ensures
        r.deep_view() == mjlog_tile(tile, red),
{
    Tile::from_mjlog_id(tile, red)
}

/// The values of a sequence if none is missing.
pub open spec fn all_some<T>(s: Seq<Option<T>>) -> Option<Seq<T>> {
    if forall|i: int| 0 <= i < s.len() ==> (#[trigger] s[i]) is Some {
        Some(s.map_values(|o: Option<T>| o.unwrap()))
    } else {
        None
    }
}

/// The 8-bit number in an attribute that the element must have.
pub open spec fn number_u8(e: ElementView, tag: Tag, attribute: Attr) -> Result<u8, ConvertError> {
    match required(e, tag, attribute) {
        Err(x) => Err(x),
        Ok(text) => match parse_u8_text(text) {
            Some(n) => Ok(n),
            None => Err(ConvertError::MalformedValue { tag, attribute }),
        },
    }
}

/// The 16-bit number in an attribute that the element must have.
pub open spec fn number_u16(e: ElementView, tag: Tag, attribute: Attr) -> Result<
    u16,
    ConvertError,
> {
    match required(e, tag, attribute) {
        Err(x) => Err(x),
        Ok(text) => match parse_u16_text(text) {
            Some(n) => Ok(n),
            None => Err(ConvertError::MalformedValue { tag, attribute }),
        },
    }
}

/// The numbers of a list.
pub open spec fn u8_list(text: Seq<char>) -> Option<Seq<u8>> {
    all_some(split_commas(text).map_values(|piece: Seq<char>| parse_u8_text(piece)))
}

/// The tile that a piece of a list names by its number.
pub open spec fn tile_of_text(piece: Seq<char>, aka: bool) -> Option<TileView> {
    match parse_u8_text(piece) {
        Some(id) => mjlog_tile(id, aka),
        None => None,
    }
}

/// The tiles of a list of tile numbers.
pub open spec fn tile_list(text: Seq<char>, aka: bool) -> Option<Seq<TileView>> {
    all_some(split_commas(text).map_values(|piece: Seq<char>| tile_of_text(piece, aka)))
}

/// The points that a piece of a list writes in hundreds, as points.
pub open spec fn hundredfold(piece: Seq<char>) -> Option<i32> {
    match parse_i32_text(piece) {
        Some(n) => if i32::MIN <= n * 100 <= i32::MAX {
            Some((n * 100) as i32)
        } else {
            None
        },
        None => None,
    }
}

/// The points of a list of hundreds.
pub open spec fn point_list(text: Seq<char>) -> Option<Seq<i32>> {
    all_some(split_commas(text).map_values(|piece: Seq<char>| hundredfold(piece)))
}

/// The second, fourth, sixth piece of a list, and so on.
pub open spec fn even_placed(pieces: Seq<Seq<char>>) -> Seq<Seq<char>> {
    Seq::new(pieces.len() / 2, |i: int| pieces[2 * i + 1])
}

/// What an `sc` list says of the changes of the four scores. The list holds
/// score and change in turn, seat by seat; only the changes are read. A
/// list of other than four changes says nothing. `None` stands for a change
/// that is no number.
pub open spec fn deltas_of_text(text: Seq<char>) -> Option<Option<Seq<i32>>> {
    let changes = even_placed(split_commas(text));
    match all_some(changes.map_values(|piece: Seq<char>| hundredfold(piece))) {
        None => None,
        Some(points) => if points.len() == 4 {
            Some(Some(points))
        } else {
            Some(None)
        },
    }
}

/// The change that the pieces of an `sc` list hold for a seat.
pub open spec fn change_of(pieces: Seq<Seq<char>>, seat: int) -> Option<i32> {
    hundredfold(pieces[2 * seat + 1])
}

/// What an `sc` list says, by its pieces: it is malformed where a change is
/// no number; it holds the four changes where it holds four, each of them
/// that of its seat; and it says nothing where it holds another number of
/// changes.
pub proof fn lemma_deltas_of_text(text: Seq<char>)
    ensures
        ({
            let pieces = split_commas(text);
            let seats = (pieces.len() / 2) as int;
            match deltas_of_text(text) {
                None => exists|seat: int| 0 <= seat < seats && (#[trigger] change_of(pieces, seat)) is None,
                Some(None) => seats != 4 && forall|seat: int|
                    0 <= seat < seats ==> (#[trigger] change_of(pieces, seat)) is Some,
                Some(Some(points)) => seats == 4 && points.len() == 4 && forall|seat: int|
                    0 <= seat < 4 ==> #[trigger] change_of(pieces, seat) == Some(points[seat]),
            }
        }),
{
    let pieces = split_commas(text);
    let seats = (pieces.len() / 2) as int;
    let changes = even_placed(pieces);
    let values = changes.map_values(|piece: Seq<char>| hundredfold(piece));
    assert(values.len() == seats);
    assert forall|seat: int| 0 <= seat < seats implies values[seat] == #[trigger] change_of(
        pieces,
        seat,
    ) by {
        assert(changes[seat] == pieces[2 * seat + 1]);
    }
    match all_some(values) {
        None => {
            let seat = choose|seat: int| 0 <= seat < values.len() && !((#[trigger] values[seat]) is Some);
            assert(change_of(pieces, seat) is None);
        },
        Some(points) => {
            assert forall|seat: int| 0 <= seat < seats implies (#[trigger] change_of(
                pieces,
                seat,
            )) is Some && change_of(pieces, seat) == Some(points[seat]) by {
                assert(values[seat] is Some);
            }
        },
    }
}

/// What the `sc` attribute of the element `tag` says of the changes of the
/// scores; nothing where the element has none.
pub open spec fn deltas_of(e: ElementView, tag: Tag) -> Result<Option<Seq<i32>>, ConvertError> {
    match optional(e, tag, Attr::Sc) {
        Err(x) => Err(x),
        Ok(None) => Ok(None),
        Ok(Some(text)) => match deltas_of_text(text) {
            Some(deltas) => Ok(deltas),
            None => Err(ConvertError::MalformedValue { tag, attribute: Attr::Sc }),
        },
    }
}

/// The version that the root element declares.
pub open spec fn version_of(e: ElementView) -> Result<Seq<char>, ConvertError> {
    required(e, Tag::Mjloggm, Attr::Ver)
}

/// What the game type says: first whether the red-five rule holds, which it
/// does unless bit 1 is set, then whether three play, which bit 4 says.
pub open spec fn game_type_of(e: ElementView) -> Result<(bool, bool), ConvertError> {
    match number_u16(e, Tag::Go, Attr::Type) {
        Err(x) => Err(x),
        Ok(t) => Ok(((t / 2) % 2 == 0, (t / 16) % 2 == 1)),
    }
}

/// The name of one seat.
pub open spec fn name_of(e: ElementView, attribute: Attr) -> Result<Seq<char>, ConvertError> {
    match required(e, Tag::Un, attribute) {
        Err(x) => Err(x),
        Ok(text) => name_of_decoded(percent_decoded(text), attribute),
    }
}

/// The names of the four seats.
pub open spec fn names_of(e: ElementView) -> Result<Seq<Seq<char>>, ConvertError> {
    match name_of(e, Attr::N0) {
        Err(x) => Err(x),
        Ok(n0) => match name_of(e, Attr::N1) {
            Err(x) => Err(x),
            Ok(n1) => match name_of(e, Attr::N2) {
                Err(x) => Err(x),
                Ok(n2) => match name_of(e, Attr::N3) {
                    Err(x) => Err(x),
                    Ok(n3) => Ok(seq![n0, n1, n2, n3]),
                },
            },
        },
    }
}

/// The wind of the round: east, south, west, north, by the number.
pub open spec fn wind(number: nat) -> TileView {
    TileView { kind: 27 + number, red: false }
}

/// What the start of a round says beside scores and hands: the wind of the
/// round, the dora indicator, the number of the round in its wind from 1,
/// the counters of repeats and of deposits, and the dealer. The seed holds
/// at least six numbers: round, repeats, deposits, two dice, indicator.
pub open spec fn init_others_of(e: ElementView, aka: bool) -> Result<
    (TileView, TileView, u8, u8, u8, u8),
    ConvertError,
> {
    let bad_seed = ConvertError::MalformedValue { tag: Tag::Init, attribute: Attr::Seed };
    match required(e, Tag::Init, Attr::Seed) {
        Err(x) => Err(x),
        Ok(text) => match u8_list(text) {
            None => Err(bad_seed),
            Some(seed) => if seed.len() < 6 {
                Err(bad_seed)
            } else {
                match mjlog_tile(seed[5], aka) {
                    None => Err(bad_seed),
                    Some(dora) => match number_u8(e, Tag::Init, Attr::Oya) {
                        Err(x) => Err(x),
                        Ok(oya) => Ok(
                            (
                                wind(((seed[0] / 4) % 4) as nat),
                                dora,
                                (seed[0] % 4 + 1) as u8,
                                seed[1],
                                seed[2],
                                oya,
                            ),
                        ),
                    },
                }
            },
        },
    }
}

/// The four scores at the start of a round, in points.
pub open spec fn init_scores_of(e: ElementView) -> Result<Seq<i32>, ConvertError> {
    let bad = ConvertError::MalformedValue { tag: Tag::Init, attribute: Attr::Ten };
    match required(e, Tag::Init, Attr::Ten) {
        Err(x) => Err(x),
        Ok(text) => match point_list(text) {
            None => Err(bad),
            Some(scores) => if scores.len() == 4 {
                Ok(scores)
            } else {
                Err(bad)
            },
        },
    }
}

/// Thirteen unknown tiles: a hand that the record does not show.
pub open spec fn hidden_hand() -> Seq<TileView> {
    Seq::new(13, |i: int| TileView::unknown())
}

/// The hand of one seat at the start of a round, in the order dealt.
pub open spec fn hand_of(e: ElementView, attribute: Attr, aka: bool) -> Result<
    Seq<TileView>,
    ConvertError,
> {
    let bad = ConvertError::MalformedValue { tag: Tag::Init, attribute };
    match optional(e, Tag::Init, attribute) {
        Err(x) => Err(x),
        Ok(None) => Ok(hidden_hand()),
        Ok(Some(text)) => match tile_list(text, aka) {
            None => Err(bad),
            Some(tiles) => if tiles.len() == 13 {
                Ok(tiles)
            } else {
                Err(bad)
            },
        },
    }
}

/// The four hands at the start of a round.
pub open spec fn init_tehais_of(e: ElementView, aka: bool) -> Result<
    Seq<Seq<TileView>>,
    ConvertError,
> {
    match hand_of(e, Attr::Hai0, aka) {
        Err(x) => Err(x),
        Ok(h0) => match hand_of(e, Attr::Hai1, aka) {
            Err(x) => Err(x),
            Ok(h1) => match hand_of(e, Attr::Hai2, aka) {
                Err(x) => Err(x),
                Ok(h2) => match hand_of(e, Attr::Hai3, aka) {
                    Err(x) => Err(x),
                    Ok(h3) => Ok(seq![h0, h1, h2, h3]),
                },
            },
        },
    }
}

/// The dora indicator that a reveal shows.
pub open spec fn dora_of(e: ElementView, aka: bool) -> Result<TileView, ConvertError> {
    match number_u8(e, Tag::Dora, Attr::Hai) {
        Err(x) => Err(x),
        Ok(id) => match mjlog_tile(id, aka) {
            Some(tile) => Ok(tile),
            None => Err(ConvertError::MalformedValue { tag: Tag::Dora, attribute: Attr::Hai }),
        },
    }
}

/// The physical tiles of a meld code, by its kind.
pub open spec fn meld_ids(meld: u16) -> Seq<u8> {
    match meld_kind_of(meld) {
        MeldKind::Chi => chi_meld(meld),
        MeldKind::Pon => pon_meld(meld),
        MeldKind::Kakan => kakan_meld(meld),
        MeldKind::Ankan => kan_meld(meld),
        MeldKind::Daiminkan => kan_meld(meld),
    }
}

/// The tiles of a meld code, if each of its physical tiles is a tile.
pub open spec fn meld_tiles(meld: u16, aka: bool) -> Option<Seq<TileView>> {
    all_some(meld_ids(meld).map_values(|id: u8| mjlog_tile(id, aka)))
}

/// The seat that gave the called tile: the caller's own for a meld made
/// from the hand.
pub open spec fn callee(caller: u8, meld: u16) -> u8 {
    ((caller + meld_source(meld)) % 4) as u8
}

/// What a meld says: its kind, the caller, the seat that gave the tile, and
/// the tiles.
pub open spec fn n_of(e: ElementView, aka: bool) -> Result<
    (MeldKind, u8, u8, Seq<TileView>),
    ConvertError,
> {
    match number_u8(e, Tag::N, Attr::Who) {
        Err(x) => Err(x),
        Ok(caller) => match number_u16(e, Tag::N, Attr::M) {
            Err(x) => Err(x),
            Ok(meld) => match meld_tiles(meld, aka) {
                None => Err(ConvertError::MalformedValue { tag: Tag::N, attribute: Attr::M }),
                Some(tiles) => Ok((meld_kind_of(meld), caller, callee(caller, meld), tiles)),
            },
        },
    }
}

/// What a reach says: the seat and the step, 1 for the call and 2 for its
/// acceptance.
pub open spec fn reach_of(e: ElementView) -> Result<(u8, u8), ConvertError> {
    match number_u8(e, Tag::Reach, Attr::Who) {
        Err(x) => Err(x),
        Ok(who) => match number_u8(e, Tag::Reach, Attr::Step) {
            Err(x) => Err(x),
            Ok(step) => Ok((who, step)),
        },
    }
}

/// The indicators under the dora indicators that a win shows, if it shows
/// any.
pub open spec fn ura_of(e: ElementView, aka: bool) -> Result<Option<Seq<TileView>>, ConvertError> {
    match optional(e, Tag::Agari, Attr::DoraHaiUra) {
        Err(x) => Err(x),
        Ok(None) => Ok(None),
        Ok(Some(text)) => match tile_list(text, aka) {
            Some(tiles) => Ok(Some(tiles)),
            None => Err(
                ConvertError::MalformedValue { tag: Tag::Agari, attribute: Attr::DoraHaiUra },
            ),
        },
    }
}

/// What a win says: the winner, the seat that paid, the indicators under
/// the dora indicators and the changes of the scores.
pub open spec fn agari_of(e: ElementView, aka: bool) -> Result<
    (u8, u8, Option<Seq<TileView>>, Option<Seq<i32>>),
    ConvertError,
> {
    match number_u8(e, Tag::Agari, Attr::Who) {
        Err(x) => Err(x),
        Ok(who) => match number_u8(e, Tag::Agari, Attr::FromWho) {
            Err(x) => Err(x),
            Ok(from_who) => match ura_of(e, aka) {
                Err(x) => Err(x),
                Ok(ura) => match deltas_of(e, Tag::Agari) {
                    Err(x) => Err(x),
                    Ok(deltas) => Ok((who, from_who, ura, deltas)),
                },
            },
        },
    }
}

/// The element that ends a round: the drawn round by its name, or else the
/// win.
pub open spec fn end_tag(e: ElementView) -> Tag {
    if e.name == "RYUUKYOKU"@ {
        Tag::Ryuukyoku
    } else {
        Tag::Agari
    }
}

/// Whether the element, a win or a drawn round, ends the game: whether it
/// has the attribute `owari`, whatever the value of the attribute.
pub open spec fn owari_of(e: ElementView) -> Result<bool, ConvertError> {
    present(e, end_tag(e), Attr::Owari)
}

/// Reads an 8-bit number from an attribute that the element must have.
fn read_u8(e: &Element, tag: Tag, attribute: Attr) -> (r: Result<u8, ConvertError>)
    ensures
        r == number_u8(e@, tag, attribute),
{
    match e.required_attribute(tag, attribute) {
        Err(x) => Err(x),
        Ok(text) => {
            let chars = chars_of(text.as_str());
            match parse_u8(chars.as_slice()) {
                Some(n) => Ok(n),
                None => Err(ConvertError::MalformedValue { tag, attribute }),
            }
        },
    }
}

/// Reads a 16-bit number from an attribute that the element must have.
fn read_u16(e: &Element, tag: Tag, attribute: Attr) -> (r: Result<u16, ConvertError>)
    ensures
        r == number_u16(e@, tag, attribute),
{
    match e.required_attribute(tag, attribute) {
        Err(x) => Err(x),
        Ok(text) => {
            let chars = chars_of(text.as_str());
            match parse_u16(chars.as_slice()) {
                Some(n) => Ok(n),
                None => Err(ConvertError::MalformedValue { tag, attribute }),
            }
        },
    }
}

/// The numbers of a vector that may be absent.
pub open spec fn list_view<T>(list: Option<Vec<T>>) -> Option<Seq<T>> {
    match list {
        Some(v) => Some(v@),
        None => None,
    }
}

/// Reads a list of 8-bit numbers.
fn parse_u8_list(text: &str) -> (r: Option<Vec<u8>>)
    ensures
        list_view(r) == u8_list(text@),
{
    let chars = chars_of(text);
    let pieces = split_at_commas(chars.as_slice());
    let ghost values = split_commas(text@).map_values(|piece: Seq<char>| parse_u8_text(piece));
    let mut out: Vec<u8> = Vec::new();
    let mut i: usize = 0;
    while i < pieces.len()
        invariant
            i <= pieces@.len(),
            texts(pieces@) == split_commas(text@),
            values == split_commas(text@).map_values(|piece: Seq<char>| parse_u8_text(piece)),
            out@.len() == i,
            forall|k: int| 0 <= k < i ==> values[k] == Some(#[trigger] out@[k]),
        decreases pieces@.len() - i,
    {
        assert(texts(pieces@)[i as int] == pieces@[i as int]@);
        match parse_u8(pieces[i].as_slice()) {
            Some(n) => {
                out.push(n);
            },
            None => {
                assert(values[i as int] is None);
                return None;
            },
        }
        i = i + 1;
    }
    assert forall|k: int| 0 <= k < values.len() implies (#[trigger] values[k]) is Some by {
        assert(values[k] == Some(out@[k]));
    }
    assert(out@ =~= values.map_values(|o: Option<u8>| o.unwrap()));
    Some(out)
}

/// Reads the tile that a piece of a list names.
fn parse_tile_text(piece: &[char], aka: bool) -> (r: Option<Tile>)
    ensures
        r.deep_view() == tile_of_text(piece@, aka),
{
    match parse_u8(piece) {
        Some(id) => translate_mjlog_tile(id, aka),
        None => None,
    }
}

/// Reads a list of tile numbers.
fn parse_tile_list(text: &str, aka: bool) -> (r: Option<Vec<Tile>>)
    ensures
        markers_view(r) == tile_list(text@, aka),
{
    let chars = chars_of(text);
    let pieces = split_at_commas(chars.as_slice());
    let ghost values = split_commas(text@).map_values(|piece: Seq<char>| tile_of_text(piece, aka));
    let mut out: Vec<Tile> = Vec::new();
    let mut i: usize = 0;
    while i < pieces.len()
        invariant
            i <= pieces@.len(),
            texts(pieces@) == split_commas(text@),
            values == split_commas(text@).map_values(|piece: Seq<char>| tile_of_text(piece, aka)),
            out@.len() == i,
            forall|k: int| 0 <= k < i ==> values[k] == Some((#[trigger] out@[k])@),
        decreases pieces@.len() - i,
    {
        assert(texts(pieces@)[i as int] == pieces@[i as int]@);
        match parse_tile_text(pieces[i].as_slice(), aka) {
            Some(tile) => {
                out.push(tile);
            },
            None => {
                assert(values[i as int] is None);
                return None;
            },
        }
        i = i + 1;
    }
    assert forall|k: int| 0 <= k < values.len() implies (#[trigger] values[k]) is Some by {
        assert(values[k] == Some(out@[k]@));
    }
    assert(tile_views(out@) =~= values.map_values(|o: Option<TileView>| o.unwrap()));
    Some(out)
}

/// Reads points written in hundreds.
fn parse_hundredfold(piece: &[char]) -> (r: Option<i32>)
    ensures
        r == hundredfold(piece@),
{
    match parse_i32(piece) {
        Some(n) => n.checked_mul(100),
        None => None,
    }
}

/// Reads the pieces of a list as points in hundreds: every piece, or only
/// the second, the fourth and so on.
fn parse_points(pieces: &Vec<Vec<char>>, every_second: bool) -> (r: Option<Vec<i32>>)
    ensures
        list_view(r) == all_some(
            (if every_second {
                even_placed(texts(pieces@))
            } else {
                texts(pieces@)
            }).map_values(|piece: Seq<char>| hundredfold(piece)),
        ),
{
    let ghost chosen = if every_second {
        even_placed(texts(pieces@))
    } else {
        texts(pieces@)
    };
    let ghost values = chosen.map_values(|piece: Seq<char>| hundredfold(piece));
    let step: usize = if every_second {
        2
    } else {
        1
    };
    let mut out: Vec<i32> = Vec::new();
    let mut i: usize = step - 1;
    while i < pieces.len()
        invariant
            step == (if every_second {
                2usize
            } else {
                1usize
            }),
            i == out@.len() * step + step - 1,
            out@.len() <= chosen.len(),
            chosen == (if every_second {
                even_placed(texts(pieces@))
            } else {
                texts(pieces@)
            }),
            values == chosen.map_values(|piece: Seq<char>| hundredfold(piece)),
            forall|k: int| 0 <= k < out@.len() ==> values[k] == Some(#[trigger] out@[k]),
        decreases pieces@.len() + 2 - i,
    {
        let ghost at = out@.len() as int;
        assert(at < chosen.len());
        assert(chosen[at] == pieces@[i as int]@);
        match parse_hundredfold(pieces[i].as_slice()) {
            Some(n) => {
                out.push(n);
            },
            None => {
                assert(values[at] is None);
                return None;
            },
        }
        if i > usize::MAX - step {
            assert(out@.len() == chosen.len());
            assert forall|k: int| 0 <= k < values.len() implies (#[trigger] values[k]) is Some by {
                assert(values[k] == Some(out@[k]));
            }
            assert(out@ =~= values.map_values(|o: Option<i32>| o.unwrap()));
            return Some(out);
        }
        i = i + step;
    }
    assert(out@.len() == chosen.len());
    assert forall|k: int| 0 <= k < values.len() implies (#[trigger] values[k]) is Some by {
        assert(values[k] == Some(out@[k]));
    }
    assert(out@ =~= values.map_values(|o: Option<i32>| o.unwrap()));
    Some(out)
}

/// The four numbers of a vector of four.
pub(crate) fn four_points(v: &Vec<i32>) -> (a: [i32; 4])
    requires
        v@.len() == 4,
    ensures
        a@ == v@,
{
    let a = [v[0], v[1], v[2], v[3]];
    assert(a@ =~= v@);
    a
}

/// The thirteen tiles of a vector of thirteen.
pub(crate) fn thirteen_tiles(v: &Vec<Tile>) -> (a: [Tile; 13])
    requires
        v@.len() == 13,
    ensures
        a@ == v@,
{
    let a = [v[0], v[1], v[2], v[3], v[4], v[5], v[6], v[7], v[8], v[9], v[10], v[11], v[12]];
    assert(a@ =~= v@);
    a
}

/// Reads what an `sc` list says of the changes of the scores.
fn parse_deltas(text: &str) -> (r: Option<Option<[i32; 4]>>)
    ensures
        match deltas_of_text(text@) {
            None => r is None,
            Some(deltas) => r is Some && points_view(r.unwrap()) == deltas,
        },
{
    let chars = chars_of(text);
    let pieces = split_at_commas(chars.as_slice());
    match parse_points(&pieces, true) {
        None => None,
        Some(points) => if points.len() == 4 {
            Some(Some(four_points(&points)))
        } else {
            Some(None)
        },
    }
}

/// Reads the changes of the scores from the `sc` attribute of the element
/// `tag`.
fn read_deltas(e: &Element, tag: Tag) -> (r: Result<Option<[i32; 4]>, ConvertError>)
    ensures
        match deltas_of(e@, tag) {
            Ok(deltas) => r is Ok && points_view(r.unwrap()) == deltas,
            Err(x) => r == Err::<Option<[i32; 4]>, ConvertError>(x),
        },
{
    match e.attribute(tag, Attr::Sc) {
        Err(x) => Err(x),
        Ok(None) => Ok(None),
        Ok(Some(text)) => match parse_deltas(text.as_str()) {
            Some(deltas) => Ok(deltas),
            None => Err(ConvertError::MalformedValue { tag, attribute: Attr::Sc }),
        },
    }
}

/// The version that the root element declares.
pub fn parse_mjloggm_version(e: &Element) -> (r: Result<String, ConvertError>)
    ensures
        match version_of(e@) {
            Ok(version) => r is Ok && r.unwrap()@ == version,
            Err(x) => r == Err::<String, ConvertError>(x),
        },
{
    match e.required_attribute(Tag::Mjloggm, Attr::Ver) {
        Ok(version) => Ok(version.clone()),
        Err(x) => Err(x),
    }
}

/// What the game type says: whether the red-five rule holds, and whether
/// three play.
pub fn parse_game_type(e: &Element) -> (r: Result<(bool, bool), ConvertError>)
    ensures
        r == game_type_of(e@),
{
    match read_u16(e, Tag::Go, Attr::Type) {
        Err(x) => Err(x),
        Ok(t) => {
            assert((t & 0x02 == 0) == ((t / 2) % 2 == 0)) by (bit_vector);
            assert((t & 0x10 != 0) == ((t / 16) % 2 == 1)) by (bit_vector);
            Ok((t & 0x02 == 0, t & 0x10 != 0))
        },
    }
}

/// Reads the name of one seat.
fn read_name(e: &Element, attribute: Attr) -> (r: Result<String, ConvertError>)
    ensures
        match name_of(e@, attribute) {
            Ok(name) => r is Ok && r.unwrap()@ == name,
            Err(x) => r == Err::<String, ConvertError>(x),
        },
{
    match e.required_attribute(Tag::Un, attribute) {
        Err(x) => Err(x),
        Ok(text) => decode_name(text.as_str(), attribute),
    }
}

/// The names of the four seats, decoded.
pub fn parse_names(e: &Element) -> (r: Result<(String, String, String, String), ConvertError>)
    ensures
        match names_of(e@) {
            Ok(names) => r is Ok && seq![
                r.unwrap().0@,
                r.unwrap().1@,
                r.unwrap().2@,
                r.unwrap().3@,
            ] == names,
            Err(x) => r == Err::<(String, String, String, String), ConvertError>(x),
        },
{
    let n0 = match read_name(e, Attr::N0) {
        Ok(name) => name,
        Err(x) => {
            return Err(x);
        },
    };
    let n1 = match read_name(e, Attr::N1) {
        Ok(name) => name,
        Err(x) => {
            return Err(x);
        },
    };
    let n2 = match read_name(e, Attr::N2) {
        Ok(name) => name,
        Err(x) => {
            return Err(x);
        },
    };
    let n3 = match read_name(e, Attr::N3) {
        Ok(name) => name,
        Err(x) => {
            return Err(x);
        },
    };
    Ok((n0, n1, n2, n3))
}

/// What the start of a round says beside scores and hands.
pub fn parse_init_others(e: &Element, aka_flag: bool) -> (r: Result<
    (Tile, Tile, u8, u8, u8, u8),
    ConvertError,
>)
    ensures
        match init_others_of(e@, aka_flag) {
            Ok(v) => r is Ok && (
                r.unwrap().0@,
                r.unwrap().1@,
                r.unwrap().2,
                r.unwrap().3,
                r.unwrap().4,
                r.unwrap().5,
            ) == v,
            Err(x) => r == Err::<(Tile, Tile, u8, u8, u8, u8), ConvertError>(x),
        },
{
    let bad_seed = ConvertError::MalformedValue { tag: Tag::Init, attribute: Attr::Seed };
    let text = match e.required_attribute(Tag::Init, Attr::Seed) {
        Ok(text) => text,
        Err(x) => {
            return Err(x);
        },
    };
    let seed = match parse_u8_list(text.as_str()) {
        Some(seed) => seed,
        None => {
            return Err(bad_seed);
        },
    };
    if seed.len() < 6 {
        return Err(bad_seed);
    }
    let dora = match translate_mjlog_tile(seed[5], aka_flag) {
        Some(dora) => dora,
        None => {
            return Err(bad_seed);
        },
    };
    let oya = match read_u8(e, Tag::Init, Attr::Oya) {
        Ok(oya) => oya,
        Err(x) => {
            return Err(x);
        },
    };
    let bakaze = Tile::plain(27 + (seed[0] / 4) % 4);
    Ok((bakaze, dora, seed[0] % 4 + 1, seed[1], seed[2], oya))
}

/// The four scores at the start of a round, in points.
pub fn parse_init_scores(e: &Element) -> (r: Result<[i32; 4], ConvertError>)
    ensures
        match init_scores_of(e@) {
            Ok(scores) => r is Ok && r.unwrap()@ == scores,
            Err(x) => r == Err::<[i32; 4], ConvertError>(x),
        },
{
    let bad = ConvertError::MalformedValue { tag: Tag::Init, attribute: Attr::Ten };
    match e.required_attribute(Tag::Init, Attr::Ten) {
        Err(x) => Err(x),
        Ok(text) => {
            let chars = chars_of(text.as_str());
            let pieces = split_at_commas(chars.as_slice());
            match parse_points(&pieces, false) {
                None => Err(bad),
                Some(scores) => if scores.len() == 4 {
                    Ok(four_points(&scores))
                } else {
                    Err(bad)
                },
            }
        },
    }
}

/// Reads the hand of one seat.
fn read_hand(e: &Element, attribute: Attr, aka: bool) -> (r: Result<[Tile; 13], ConvertError>)
    ensures
        match hand_of(e@, attribute, aka) {
            Ok(hand) => r is Ok && tile_views(r.unwrap()@) == hand,
            Err(x) => r == Err::<[Tile; 13], ConvertError>(x),
        },
{
    let bad = ConvertError::MalformedValue { tag: Tag::Init, attribute };
    match e.attribute(Tag::Init, attribute) {
        Err(x) => Err(x),
        Ok(None) => {
            let u = Tile::unknown();
            let hand = [u, u, u, u, u, u, u, u, u, u, u, u, u];
            assert(tile_views(hand@) =~= hidden_hand());
            Ok(hand)
        },
        Ok(Some(text)) => match parse_tile_list(text.as_str(), aka) {
            None => Err(bad),
            Some(tiles) => if tiles.len() == 13 {
                Ok(thirteen_tiles(&tiles))
            } else {
                Err(bad)
            },
        },
    }
}

/// The four hands at the start of a round, each in the order dealt. A hand
/// that the record does not hold is thirteen unknown tiles.
pub fn parse_init_tehais(e: &Element, aka_flag: bool) -> (r: Result<[[Tile; 13]; 4], ConvertError>)
    ensures
        match init_tehais_of(e@, aka_flag) {
            Ok(hands) => r is Ok && hand_views(r.unwrap()@) == hands,
            Err(x) => r == Err::<[[Tile; 13]; 4], ConvertError>(x),
        },
{
    let h0 = match read_hand(e, Attr::Hai0, aka_flag) {
        Ok(hand) => hand,
        Err(x) => {
            return Err(x);
        },
    };
    let h1 = match read_hand(e, Attr::Hai1, aka_flag) {
        Ok(hand) => hand,
        Err(x) => {
            return Err(x);
        },
    };
    let h2 = match read_hand(e, Attr::Hai2, aka_flag) {
        Ok(hand) => hand,
        Err(x) => {
            return Err(x);
        },
    };
    let h3 = match read_hand(e, Attr::Hai3, aka_flag) {
        Ok(hand) => hand,
        Err(x) => {
            return Err(x);
        },
    };
    let hands = [h0, h1, h2, h3];
    assert(hand_views(hands@) =~= seq![
        tile_views(h0@),
        tile_views(h1@),
        tile_views(h2@),
        tile_views(h3@),
    ]);
    Ok(hands)
}

/// The dora indicator that a reveal shows.
pub fn parse_dora(e: &Element, aka_flag: bool) -> (r: Result<Tile, ConvertError>)
    ensures
        match dora_of(e@, aka_flag) {
            Ok(tile) => r is Ok && r.unwrap()@ == tile,
            Err(x) => r == Err::<Tile, ConvertError>(x),
        },
{
    match read_u8(e, Tag::Dora, Attr::Hai) {
        Err(x) => Err(x),
        Ok(id) => match translate_mjlog_tile(id, aka_flag) {
            Some(tile) => Ok(tile),
            None => Err(ConvertError::MalformedValue { tag: Tag::Dora, attribute: Attr::Hai }),
        },
    }
}

/// Reads the physical tiles of a list as tiles.
fn translate_all(ids: &Vec<u8>, aka: bool) -> (r: Option<Vec<Tile>>)
    ensures
        markers_view(r) == all_some(ids@.map_values(|id: u8| mjlog_tile(id, aka))),
{
    let ghost values = ids@.map_values(|id: u8| mjlog_tile(id, aka));
    let mut out: Vec<Tile> = Vec::new();
    let mut i: usize = 0;
    while i < ids.len()
        invariant
            i <= ids@.len(),
            values == ids@.map_values(|id: u8| mjlog_tile(id, aka)),
            out@.len() == i,
            forall|k: int| 0 <= k < i ==> values[k] == Some((#[trigger] out@[k])@),
        decreases ids@.len() - i,
    {
        match translate_mjlog_tile(ids[i], aka) {
            Some(tile) => {
                out.push(tile);
            },
            None => {
                assert(values[i as int] is None);
                return None;
            },
        }
        i = i + 1;
    }
    assert forall|k: int| 0 <= k < values.len() implies (#[trigger] values[k]) is Some by {
        assert(values[k] == Some(out@[k]@));
    }
    assert(tile_views(out@) =~= values.map_values(|o: Option<TileView>| o.unwrap()));
    Some(out)
}

/// What a meld says: its kind, the caller, the seat that gave the tile, and
/// the tiles as the code gives them.
pub fn parse_n(e: &Element, aka_flag: bool) -> (r: Result<(MeldKind, u8, u8, Vec<Tile>), ConvertError>)
    ensures
        match n_of(e@, aka_flag) {
            Ok(v) => r is Ok && (
                r.unwrap().0,
                r.unwrap().1,
                r.unwrap().2,
                tile_views(r.unwrap().3@),
            ) == v,
            Err(x) => r == Err::<(MeldKind, u8, u8, Vec<Tile>), ConvertError>(x),
        },
{
    let caller = match read_u8(e, Tag::N, Attr::Who) {
        Ok(caller) => caller,
        Err(x) => {
            return Err(x);
        },
    };
    let meld = match read_u16(e, Tag::N, Attr::M) {
        Ok(meld) => meld,
        Err(x) => {
            return Err(x);
        },
    };
    assert(meld & 0x3 == meld % 4) by (bit_vector);
    let source = meld & 0x3;
    let target = ((caller as u16 + source) % 4) as u8;
    let kind = meld_kind(meld);
    let ids = match kind {
        MeldKind::Chi => parse_chi(meld),
        MeldKind::Pon => parse_pon(meld),
        MeldKind::Kakan => parse_kakan(meld),
        MeldKind::Ankan => parse_kan(meld),
        MeldKind::Daiminkan => parse_kan(meld),
    };
    match translate_all(&ids, aka_flag) {
        Some(tiles) => Ok((kind, caller, target, tiles)),
        None => Err(ConvertError::MalformedValue { tag: Tag::N, attribute: Attr::M }),
    }
}

/// What a reach says: the seat and the step.
pub fn parse_reach(e: &Element) -> (r: Result<(u8, u8), ConvertError>)
    ensures
        r == reach_of(e@),
{
    match read_u8(e, Tag::Reach, Attr::Who) {
        Err(x) => Err(x),
        Ok(who) => match read_u8(e, Tag::Reach, Attr::Step) {
            Err(x) => Err(x),
            Ok(step) => Ok((who, step)),
        },
    }
}

/// What a win says: the winner, the seat that paid, the indicators under
/// the dora indicators and the changes of the scores.
pub fn parse_agari(e: &Element, aka_flag: bool) -> (r: Result<
    (u8, u8, Option<Vec<Tile>>, Option<[i32; 4]>),
    ConvertError,
>)
    ensures
        match agari_of(e@, aka_flag) {
            Ok(v) => r is Ok && (
                r.unwrap().0,
                r.unwrap().1,
                markers_view(r.unwrap().2),
                points_view(r.unwrap().3),
            ) == v,
            Err(x) => r == Err::<(u8, u8, Option<Vec<Tile>>, Option<[i32; 4]>), ConvertError>(x),
        },
{
    let who = match read_u8(e, Tag::Agari, Attr::Who) {
        Ok(who) => who,
        Err(x) => {
            return Err(x);
        },
    };
    let from_who = match read_u8(e, Tag::Agari, Attr::FromWho) {
        Ok(from_who) => from_who,
        Err(x) => {
            return Err(x);
        },
    };
    let ura_markers = match e.attribute(Tag::Agari, Attr::DoraHaiUra) {
        Err(x) => {
            return Err(x);
        },
        Ok(None) => None,
        Ok(Some(text)) => match parse_tile_list(text.as_str(), aka_flag) {
            Some(tiles) => Some(tiles),
            None => {
                return Err(
                    ConvertError::MalformedValue { tag: Tag::Agari, attribute: Attr::DoraHaiUra },
                );
            },
        },
    };
    let deltas = match read_deltas(e, Tag::Agari) {
        Ok(deltas) => deltas,
        Err(x) => {
            return Err(x);
        },
    };
    Ok((who, from_who, ura_markers, deltas))
}

/// Whether the element, a win or a drawn round, ends the game.
pub fn check_if_owari(e: &Element) -> (r: Result<bool, ConvertError>)
    ensures
        r == owari_of(e@),
{
    let name = chars_of(e.name.as_str());
    let tag = if text_is(name.as_slice(), "RYUUKYOKU") {
        Tag::Ryuukyoku
    } else {
        Tag::Agari
    };
    e.has_attribute(tag, Attr::Owari)
}

/// What a drawn round says of the changes of the scores.
pub fn parse_ryuukyoku(e: &Element) -> (r: Result<Option<[i32; 4]>, ConvertError>)
    ensures
        match deltas_of(e@, Tag::Ryuukyoku) {
            Ok(deltas) => r is Ok && points_view(r.unwrap()) == deltas,
            Err(x) => r == Err::<Option<[i32; 4]>, ConvertError>(x),
        },
{
    read_deltas(e, Tag::Ryuukyoku)
}

} // verus!
