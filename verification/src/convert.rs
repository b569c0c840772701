//! The conversion of an mjlog record, piece by piece.
//!
//! A conversion walks once through the pieces of a record. It carries what
//! the record has told so far and later events depend on: whether the
//! red-five rule holds, the names, the tile that each seat drew last, and
//! how many reaches were accepted in the round. Each piece gives no event,
//! one, or a few. A conversion belongs to one record.

use crate::error::{Attr, ConvertError, Tag};
use crate::event::{event_views, string_views, Event, EventView};
use crate::meld::{meld_kind_of, MeldKind};
use crate::mjlog::{
    agari_of, check_if_owari, deltas_of, dora_of, game_type_of, init_others_of,
    init_scores_of, init_tehais_of, meld_ids, meld_tiles, n_of, names_of, number_u16, owari_of,
    parse_agari,
    parse_dora, parse_game_type, parse_init_others, parse_init_scores, parse_init_tehais,
    parse_mjloggm_version, parse_n, parse_names, parse_reach, parse_ryuukyoku, reach_of,
    translate_mjlog_tile, version_of,
};
use crate::text::{chars_of, parse_u8, parse_u8_text, text_is};
use crate::tile::{is_five, mjlog_tile, tile_views, Tile, TileView};
use crate::xml::{node_views, Element, ElementView, XmlNode, XmlNodeView};
use vstd::prelude::*;
use vstd::slice::*;
use vstd::string::*;

verus! {

/// What the name of an element says the element is.
#[derive(Clone, Copy, Debug, PartialEq, Eq, Hash, Structural)]
pub enum ElementKind {
    /// One of the elements known by name.
    Named(Tag),
    /// A seat draws a tile: `T`, `U`, `V` or `W` for the seat, then the
    /// number of the tile.
    Draw { seat: u8, tile: u8 },
    /// A seat discards a tile: `D`, `E`, `F` or `G` for the seat, then the
    /// number of the tile.
    Discard { seat: u8, tile: u8 },
    /// Any other element. It is passed over.
    Unknown,
}

/// The known element of a name.
pub open spec fn tag_of_name(name: Seq<char>) -> Option<Tag> {
    if name == "mjloggm"@ {
        Some(Tag::Mjloggm)
    } else if name == "GO"@ {
        Some(Tag::Go)
    } else if name == "UN"@ {
        Some(Tag::Un)
    } else if name == "TAIKYOKU"@ {
        Some(Tag::Taikyoku)
    } else if name == "SHUFFLE"@ {
        Some(Tag::Shuffle)
    } else if name == "INIT"@ {
        Some(Tag::Init)
    } else if name == "DORA"@ {
        Some(Tag::Dora)
    } else if name == "N"@ {
        Some(Tag::N)
    } else if name == "REACH"@ {
        Some(Tag::Reach)
    } else if name == "AGARI"@ {
        Some(Tag::Agari)
    } else if name == "RYUUKYOKU"@ {
        Some(Tag::Ryuukyoku)
    } else if name == "BYE"@ {
        Some(Tag::Bye)
    } else {
        None
    }
}

/// The seat that a letter names in a draw.
pub open spec fn draw_seat(c: char) -> Option<u8> {
    if c == 'T' {
        Some(0u8)
    } else if c == 'U' {
        Some(1u8)
    } else if c == 'V' {
        Some(2u8)
    } else if c == 'W' {
        Some(3u8)
    } else {
        None
    }
}

/// The seat that a letter names in a discard.
pub open spec fn discard_seat(c: char) -> Option<u8> {
    if c == 'D' {
        Some(0u8)
    } else if c == 'E' {
        Some(1u8)
    } else if c == 'F' {
        Some(2u8)
    } else if c == 'G' {
        Some(3u8)
    } else {
        None
    }
}

/// The physical tile that a name gives behind its first letter.
pub open spec fn tile_of_name(name: Seq<char>) -> Option<u8> {
    if name.len() == 0 {
        None
    } else {
        match parse_u8_text(name.skip(1)) {
            Some(id) => if id < 140 {
                Some(id)
            } else {
                None
            },
            None => None,
        }
    }
}

/// What a name says the element is. A name that is none of the known ones
/// and gives no seat with a tile is unknown.
pub open spec fn element_kind(name: Seq<char>) -> ElementKind {
    match tag_of_name(name) {
        Some(tag) => ElementKind::Named(tag),
        None => match tile_of_name(name) {
            None => ElementKind::Unknown,
            Some(tile) => match draw_seat(name[0]) {
                Some(seat) => ElementKind::Draw { seat, tile },
                None => match discard_seat(name[0]) {
                    Some(seat) => ElementKind::Discard { seat, tile },
                    None => ElementKind::Unknown,
                },
            },
        },
    }
}

/// What a conversion carries from piece to piece.
pub struct ConversionView {
    /// Whether the red-five rule holds.
    pub aka: bool,
    /// Whether the version of the record was looked at.
    pub version_checked: bool,
    /// Whether a list of names was read.
    pub named: bool,
    /// The names of the four seats.
    pub names: Seq<Seq<char>>,
    /// The id of the tile that each seat drew last.
    pub last_draw: Seq<u8>,
    /// How many reaches were accepted in this round.
    pub reach_accepted: u8,
}

impl ConversionView {
    /// Four names, four last draws, and no more than four accepted reaches.
    pub open spec fn wf(self) -> bool {
        self.names.len() == 4 && self.last_draw.len() == 4 && self.reach_accepted <= 4
    }

    /// The state before the first piece: no red fives, the seats named
    /// `player1` to `player4`, every seat with the unknown tile as its last
    /// draw.
    pub open spec fn initial() -> ConversionView {
        ConversionView {
            aka: false,
            version_checked: false,
            named: false,
            names: seq!["player1"@, "player2"@, "player3"@, "player4"@],
            last_draw: seq![37u8, 37u8, 37u8, 37u8],
            reach_accepted: 0,
        }
    }
}

/// The last tile of a concealed kan: under the red-five rule a five is the
/// red one.
pub open spec fn ankan_last(tile: TileView, aka: bool) -> TileView {
    if aka && is_five(tile.kind) {
        tile.reddened()
    } else {
        tile
    }
}

/// How many tiles the code of a meld gives.
pub open spec fn meld_len(kind: MeldKind) -> nat {
    match kind {
        MeldKind::Chi => 3,
        MeldKind::Pon => 3,
        MeldKind::Kakan => 4,
        MeldKind::Ankan => 2,
        MeldKind::Daiminkan => 4,
    }
}

/// The event of a meld. The first tile is the called one, the tiles behind
/// it come from the hand. An added kan and a concealed kan take the second
/// tile for each of three tiles of the hand; a concealed kan has as its
/// fourth the first tile, red where `ankan_last` says so.
pub open spec fn meld_event(
    kind: MeldKind,
    actor: u8,
    target: u8,
    tiles: Seq<TileView>,
    aka: bool,
) -> EventView {
    match kind {
        MeldKind::Chi => EventView::Chi {
            actor,
            target,
            pai: tiles[0],
            consumed: seq![tiles[1], tiles[2]],
        },
        MeldKind::Pon => EventView::Pon {
            actor,
            target,
            pai: tiles[0],
            consumed: seq![tiles[1], tiles[2]],
        },
        MeldKind::Kakan => EventView::Kakan {
            actor,
            pai: tiles[0],
            consumed: seq![tiles[1], tiles[1], tiles[1]],
        },
        MeldKind::Ankan => EventView::Ankan {
            actor,
            consumed: seq![tiles[1], tiles[1], tiles[1], ankan_last(tiles[0], aka)],
        },
        MeldKind::Daiminkan => EventView::Daiminkan {
            actor,
            target,
            pai: tiles[0],
            consumed: seq![tiles[1], tiles[2], tiles[3]],
        },
    }
}

/// The events that end a round: the result, the end of the round and, where
/// the element says so, the end of the game.
pub open spec fn round_end(result: EventView, owari: bool) -> Seq<EventView> {
    if owari {
        seq![result, EventView::EndKyoku, EventView::EndGame]
    } else {
        seq![result, EventView::EndKyoku]
    }
}

/// What a step gives: the next state and the events, or a failure.
pub type Stepped = Result<(ConversionView, Seq<EventView>), ConvertError>;

/// The game type sets the red-five rule. A game of three is refused.
pub open spec fn go_step(st: ConversionView, e: ElementView) -> Stepped {
    match game_type_of(e) {
        Err(x) => Err(x),
        Ok((aka, sanma)) => if sanma {
            Err(ConvertError::UnsupportedGameMode)
        } else {
            Ok((ConversionView { aka, ..st }, seq![]))
        },
    }
}

/// The first list of names names the seats. A later one, which a player
/// who comes back leaves, is passed over.
pub open spec fn un_step(st: ConversionView, e: ElementView) -> Stepped {
    if st.named {
        Ok((st, seq![]))
    } else {
        match names_of(e) {
            Err(x) => Err(x),
            Ok(names) => Ok((ConversionView { names, named: true, ..st }, seq![])),
        }
    }
}

/// The start of the game gives the names and the red-five rule as they
/// stand; the first round is round 0.
pub open spec fn taikyoku_step(st: ConversionView) -> Stepped {
    Ok((st, seq![EventView::StartGame { names: st.names, kyoku_first: 0, aka_flag: st.aka }]))
}

/// The start of a round.
pub open spec fn init_step(st: ConversionView, e: ElementView) -> Stepped {
    match init_others_of(e, st.aka) {
        Err(x) => Err(x),
        Ok((bakaze, dora_marker, kyoku, honba, kyotaku, oya)) => match init_scores_of(e) {
            Err(x) => Err(x),
            Ok(scores) => match init_tehais_of(e, st.aka) {
                Err(x) => Err(x),
                Ok(tehais) => Ok(
                    (
                        st,
                        seq![
                            EventView::StartKyoku {
                                bakaze,
                                dora_marker,
                                kyoku,
                                honba,
                                kyotaku,
                                oya,
                                scores,
                                tehais,
                            },
                        ],
                    ),
                ),
            },
        },
    }
}

/// The reveal of a dora indicator.
pub open spec fn dora_step(st: ConversionView, e: ElementView) -> Stepped {
    match dora_of(e, st.aka) {
        Err(x) => Err(x),
        Ok(dora_marker) => Ok((st, seq![EventView::Dora { dora_marker }])),
    }
}

/// A meld.
pub open spec fn meld_step(st: ConversionView, e: ElementView) -> Stepped {
    match n_of(e, st.aka) {
        Err(x) => Err(x),
        Ok((kind, actor, target, tiles)) => Ok(
            (st, seq![meld_event(kind, actor, target, tiles, st.aka)]),
        ),
    }
}

/// A reach. Step 1 is the call. Step 2 is its acceptance, which counts and
/// gives an event while fewer than four were accepted in the round; a
/// further one gives nothing. Any other step gives nothing.
pub open spec fn reach_step(st: ConversionView, e: ElementView) -> Stepped {
    match reach_of(e) {
        Err(x) => Err(x),
        Ok((actor, step)) => if step == 1 {
            Ok((st, seq![EventView::Reach { actor }]))
        } else if step == 2 && st.reach_accepted < 4 {
            Ok(
                (
                    ConversionView { reach_accepted: (st.reach_accepted + 1) as u8, ..st },
                    seq![EventView::ReachAccepted { actor }],
                ),
            )
        } else {
            Ok((st, seq![]))
        },
    }
}

/// A win ends the round: no reach is accepted any more.
pub open spec fn agari_step(st: ConversionView, e: ElementView) -> Stepped {
    match agari_of(e, st.aka) {
        Err(x) => Err(x),
        Ok((actor, target, ura_markers, deltas)) => match owari_of(e) {
            Err(x) => Err(x),
            Ok(owari) => Ok(
                (
                    ConversionView { reach_accepted: 0, ..st },
                    round_end(EventView::Hora { actor, target, ura_markers, deltas }, owari),
                ),
            ),
        },
    }
}

/// A drawn round ends the round as a win does.
pub open spec fn ryuukyoku_step(st: ConversionView, e: ElementView) -> Stepped {
    match deltas_of(e, Tag::Ryuukyoku) {
        Err(x) => Err(x),
        Ok(deltas) => match owari_of(e) {
            Err(x) => Err(x),
            Ok(owari) => Ok(
                (
                    ConversionView { reach_accepted: 0, ..st },
                    round_end(EventView::Ryukyoku { deltas }, owari),
                ),
            ),
        },
    }
}

/// A draw: the tile is kept as the last that the seat drew.
pub open spec fn draw_step(st: ConversionView, seat: u8, tile: u8) -> Stepped {
    let pai = mjlog_tile(tile, st.aka).unwrap();
    Ok(
        (
            ConversionView {
                last_draw: st.last_draw.update(seat as int, pai.canonical_id() as u8),
                ..st
            },
            seq![EventView::Tsumo { actor: seat, pai }],
        ),
    )
}

/// A discard: the tile was drawn and thrown at once if it is the tile that
/// the seat drew last.
pub open spec fn discard_step(st: ConversionView, seat: u8, tile: u8) -> Stepped {
    let pai = mjlog_tile(tile, st.aka).unwrap();
    Ok(
        (
            st,
            seq![
                EventView::Dahai {
                    actor: seat,
                    pai,
                    tsumogiri: st.last_draw[seat as int] == pai.canonical_id(),
                },
            ],
        ),
    )
}

/// The next state and the events of an element that stands alone. The
/// shuffle, a player who left, and every element that is not known give
/// nothing.
pub open spec fn leaf_step(st: ConversionView, e: ElementView) -> Stepped {
    match element_kind(e.name) {
        ElementKind::Named(Tag::Go) => go_step(st, e),
        ElementKind::Named(Tag::Un) => un_step(st, e),
        ElementKind::Named(Tag::Taikyoku) => taikyoku_step(st),
        ElementKind::Named(Tag::Init) => init_step(st, e),
        ElementKind::Named(Tag::Dora) => dora_step(st, e),
        ElementKind::Named(Tag::N) => meld_step(st, e),
        ElementKind::Named(Tag::Reach) => reach_step(st, e),
        ElementKind::Named(Tag::Agari) => agari_step(st, e),
        ElementKind::Named(Tag::Ryuukyoku) => ryuukyoku_step(st, e),
        ElementKind::Draw { seat, tile } => draw_step(st, seat, tile),
        ElementKind::Discard { seat, tile } => discard_step(st, seat, tile),
        _ => Ok((st, seq![])),
    }
}

/// The next state and the events of an element that opens. Only the root
/// counts, and only the first time: its version must be 2.3.
pub open spec fn open_step(st: ConversionView, e: ElementView) -> Stepped {
    if e.name == "mjloggm"@ && !st.version_checked {
        match version_of(e) {
            Err(x) => Err(x),
            Ok(version) => if version == "2.3"@ {
                Ok((ConversionView { version_checked: true, ..st }, seq![]))
            } else {
                Err(ConvertError::UnsupportedVersion)
            },
        }
    } else {
        Ok((st, seq![]))
    }
}

/// The next state and the events of one piece of a record.
pub open spec fn step(st: ConversionView, node: XmlNodeView) -> Stepped {
    match node {
        XmlNodeView::Open(e) => open_step(st, e),
        XmlNodeView::Leaf(e) => leaf_step(st, e),
        XmlNodeView::Other => Ok((st, seq![])),
    }
}

/// The state behind the pieces of a record and their events in order, or
/// the failure of the first piece that fails.
pub open spec fn run(st: ConversionView, nodes: Seq<XmlNodeView>) -> Stepped
    decreases nodes.len(),
{
    if nodes.len() == 0 {
        Ok((st, seq![]))
    } else {
        match run(st, nodes.drop_last()) {
            Err(x) => Err(x),
            Ok((mid, events)) => match step(mid, nodes.last()) {
                Err(x) => Err(x),
                Ok((next, more)) => Ok((next, events + more)),
            },
        }
    }
}

/// The events of a record, or the failure of its first piece that fails.
pub open spec fn events_of(nodes: Seq<XmlNodeView>) -> Result<Seq<EventView>, ConvertError> {
    match run(ConversionView::initial(), nodes) {
        Err(x) => Err(x),
        Ok((_, events)) => Ok(events),
    }
}

/// The state of one conversion.
pub struct Conversion {
    aka: bool,
    version_checked: bool,
    named: bool,
    names: [String; 4],
    last_draw: [u8; 4],
    reach_accepted: u8,
}

impl View for Conversion {
    type V = ConversionView;

    closed spec fn view(&self) -> ConversionView {
        ConversionView {
            aka: self.aka,
            version_checked: self.version_checked,
            named: self.named,
            names: string_views(self.names@),
            last_draw: self.last_draw@,
            reach_accepted: self.reach_accepted,
        }
    }
}

/// The known element of a name.
fn known_tag(name: &[char]) -> (r: Option<Tag>)
    ensures
        r == tag_of_name(name@),
{
    if text_is(name, "mjloggm") {
        Some(Tag::Mjloggm)
    } else if text_is(name, "GO") {
        Some(Tag::Go)
    } else if text_is(name, "UN") {
        Some(Tag::Un)
    } else if text_is(name, "TAIKYOKU") {
        Some(Tag::Taikyoku)
    } else if text_is(name, "SHUFFLE") {
        Some(Tag::Shuffle)
    } else if text_is(name, "INIT") {
        Some(Tag::Init)
    } else if text_is(name, "DORA") {
        Some(Tag::Dora)
    } else if text_is(name, "N") {
        Some(Tag::N)
    } else if text_is(name, "REACH") {
        Some(Tag::Reach)
    } else if text_is(name, "AGARI") {
        Some(Tag::Agari)
    } else if text_is(name, "RYUUKYOKU") {
        Some(Tag::Ryuukyoku)
    } else if text_is(name, "BYE") {
        Some(Tag::Bye)
    } else {
        None
    }
}

/// The seat that a letter names in a draw.
fn seat_of_draw(c: char) -> (r: Option<u8>)
    ensures
        r == draw_seat(c),
{
    if c == 'T' {
        Some(0)
    } else if c == 'U' {
        Some(1)
    } else if c == 'V' {
        Some(2)
    } else if c == 'W' {
        Some(3)
    } else {
        None
    }
}

/// The seat that a letter names in a discard.
fn seat_of_discard(c: char) -> (r: Option<u8>)
    ensures
        r == discard_seat(c),
{
    if c == 'D' {
        Some(0)
    } else if c == 'E' {
        Some(1)
    } else if c == 'F' {
        Some(2)
    } else if c == 'G' {
        Some(3)
    } else {
        None
    }
}

/// What the name of an element says the element is.
pub fn classify(name: &str) -> (kind: ElementKind)
    ensures
        kind == element_kind(name@),
{
    let chars = chars_of(name);
    match known_tag(chars.as_slice()) {
        Some(tag) => ElementKind::Named(tag),
        None => {
            if chars.len() == 0 {
                return ElementKind::Unknown;
            }
            let rest = slice_subrange(chars.as_slice(), 1, chars.len());
            assert(rest@ =~= name@.skip(1));
            let tile = match parse_u8(rest) {
                Some(id) => if id < 140 {
                    id
                } else {
                    return ElementKind::Unknown;
                },
                None => {
                    return ElementKind::Unknown;
                },
            };
            match seat_of_draw(chars[0]) {
                Some(seat) => ElementKind::Draw { seat, tile },
                None => match seat_of_discard(chars[0]) {
                    Some(seat) => ElementKind::Discard { seat, tile },
                    None => ElementKind::Unknown,
                },
            }
        },
    }
}

/// A code gives as many tiles as its kind of meld has.
pub proof fn lemma_meld_tiles_len(meld: u16, aka: bool)
    ensures
        meld_ids(meld).len() == meld_len(meld_kind_of(meld)),
        meld_tiles(meld, aka) is Some ==> meld_tiles(meld, aka).unwrap().len() == meld_len(
            meld_kind_of(meld),
        ),
{
}

/// Builds the event of a meld from its tiles.
fn make_meld_event(kind: MeldKind, actor: u8, target: u8, tiles: &Vec<Tile>, aka: bool) -> (event:
    Event)
    requires
        tiles@.len() == meld_len(kind),
    ensures
        event@ == meld_event(kind, actor, target, tile_views(tiles@), aka),
{
    match kind {
        MeldKind::Chi => {
            let consumed = [tiles[1], tiles[2]];
            assert(tile_views(consumed@) =~= seq![tiles@[1]@, tiles@[2]@]);
            Event::Chi { actor, target, pai: tiles[0], consumed }
        },
        MeldKind::Pon => {
            let consumed = [tiles[1], tiles[2]];
            assert(tile_views(consumed@) =~= seq![tiles@[1]@, tiles@[2]@]);
            Event::Pon { actor, target, pai: tiles[0], consumed }
        },
        MeldKind::Kakan => {
            let consumed = [tiles[1], tiles[1], tiles[1]];
            assert(tile_views(consumed@) =~= seq![tiles@[1]@, tiles@[1]@, tiles@[1]@]);
            Event::Kakan { actor, pai: tiles[0], consumed }
        },
        MeldKind::Ankan => {
            let first = tiles[0];
            let last = if aka && first.is_five() {
                first.make_red()
            } else {
                first
            };
            let consumed = [tiles[1], tiles[1], tiles[1], last];
            assert(tile_views(consumed@) =~= seq![tiles@[1]@, tiles@[1]@, tiles@[1]@, last@]);
            Event::Ankan { actor, consumed }
        },
        MeldKind::Daiminkan => {
            let consumed = [tiles[1], tiles[2], tiles[3]];
            assert(tile_views(consumed@) =~= seq![tiles@[1]@, tiles@[2]@, tiles@[3]@]);
            Event::Daiminkan { actor, target, pai: tiles[0], consumed }
        },
    }
}

/// Puts the events that end a round behind its result.
fn end_round(result: Event, owari: bool) -> (events: Vec<Event>)
    ensures
        event_views(events@) == round_end(result@, owari),
{
    let mut events: Vec<Event> = Vec::new();
    events.push(result);
    events.push(Event::EndKyoku);
    if owari {
        events.push(Event::EndGame);
    }
    assert(event_views(events@) =~= round_end(result@, owari));
    events
}

/// One event as a list.
fn single(event: Event) -> (events: Vec<Event>)
    ensures
        event_views(events@) == seq![event@],
{
    let mut events: Vec<Event> = Vec::new();
    events.push(event);
    assert(event_views(events@) =~= seq![event@]);
    events
}

/// No event.
fn nothing() -> (events: Vec<Event>)
    ensures
        event_views(events@) == Seq::<EventView>::empty(),
{
    let events: Vec<Event> = Vec::new();
    assert(event_views(events@) =~= Seq::<EventView>::empty());
    events
}

impl Conversion {
    /// A conversion before the first piece of its record.
    pub fn new() -> (c: Conversion)
        ensures
            c@ == ConversionView::initial(),
    {
        let names = [
            String::from_str("player1"),
            String::from_str("player2"),
            String::from_str("player3"),
            String::from_str("player4"),
        ];
        let last = Tile::unknown().to_canonical_id();
        let c = Conversion {
            aka: false,
            version_checked: false,
            named: false,
            names,
            last_draw: [last, last, last, last],
            reach_accepted: 0,
        };
        assert(c@.names =~= ConversionView::initial().names);
        assert(c@.last_draw =~= ConversionView::initial().last_draw);
        c
    }

    /// Whether the red-five rule holds, as far as the record has told.
    pub fn aka_flag(&self) -> (b: bool)
        ensures
            b == self@.aka,
    {
        self.aka
    }

    /// How many reaches were accepted in this round.
    pub fn reach_accepted(&self) -> (n: u8)
        ensures
            n == self@.reach_accepted,
    {
        self.reach_accepted
    }

    /// The names of the four seats as events give them.
    fn names(&self) -> (names: [String; 4])
        ensures
            string_views(names@) == self@.names,
    {
        let names = [
            self.names[0].clone(),
            self.names[1].clone(),
            self.names[2].clone(),
            self.names[3].clone(),
        ];
        assert(string_views(names@) =~= string_views(self.names@));
        names
    }

    /// Takes the root element: looks at its version, the first time.
    fn take_open(&mut self, e: &Element) -> (r: Result<Vec<Event>, ConvertError>)
        ensures
            Self::stepped(old(self)@, final(self)@, r, open_step(old(self)@, e@)),
    {
        let name = chars_of(e.name.as_str());
        if text_is(name.as_slice(), "mjloggm") && !self.version_checked {
            let version = parse_mjloggm_version(e)?;
            let chars = chars_of(version.as_str());
            if text_is(chars.as_slice(), "2.3") {
                self.version_checked = true;
                Ok(nothing())
            } else {
                Err(ConvertError::UnsupportedVersion)
            }
        } else {
            Ok(nothing())
        }
    }

    /// Whether what came back is what the step gives.
    pub open spec fn stepped(
        before: ConversionView,
        after: ConversionView,
        r: Result<Vec<Event>, ConvertError>,
        expected: Stepped,
    ) -> bool {
        match expected {
            Ok((next, events)) => r is Ok && after == next && event_views(r.unwrap()@) == events,
            Err(x) => r == Err::<Vec<Event>, ConvertError>(x),
        }
    }

    /// Takes the game type.
    fn take_go(&mut self, e: &Element) -> (r: Result<Vec<Event>, ConvertError>)
        ensures
            Self::stepped(old(self)@, final(self)@, r, go_step(old(self)@, e@)),
    {
        let (aka, sanma) = parse_game_type(e)?;
        if sanma {
            return Err(ConvertError::UnsupportedGameMode);
        }
        self.aka = aka;
        Ok(nothing())
    }

    /// Takes a list of names.
    fn take_un(&mut self, e: &Element) -> (r: Result<Vec<Event>, ConvertError>)
        ensures
            Self::stepped(old(self)@, final(self)@, r, un_step(old(self)@, e@)),
    {
        if !self.named {
            let (n0, n1, n2, n3) = parse_names(e)?;
            self.names = [n0, n1, n2, n3];
            self.named = true;
            assert(string_views(self.names@) =~= names_of(e@).unwrap());
        }
        Ok(nothing())
    }

    /// Takes the start of the game.
    fn take_taikyoku(&self) -> (r: Result<Vec<Event>, ConvertError>)
        ensures
            Self::stepped(self@, self@, r, taikyoku_step(self@)),
    {
        Ok(single(Event::StartGame { names: self.names(), kyoku_first: 0, aka_flag: self.aka }))
    }

    /// Takes the start of a round.
    fn take_init(&self, e: &Element) -> (r: Result<Vec<Event>, ConvertError>)
        ensures
            Self::stepped(self@, self@, r, init_step(self@, e@)),
    {
        let (bakaze, dora_marker, kyoku, honba, kyotaku, oya) = parse_init_others(e, self.aka)?;
        let scores = parse_init_scores(e)?;
        let tehais = parse_init_tehais(e, self.aka)?;
        Ok(
            single(
                Event::StartKyoku {
                    bakaze,
                    dora_marker,
                    kyoku,
                    honba,
                    kyotaku,
                    oya,
                    scores,
                    tehais,
                },
            ),
        )
    }

    /// Takes the reveal of a dora indicator.
    fn take_dora(&self, e: &Element) -> (r: Result<Vec<Event>, ConvertError>)
        ensures
            Self::stepped(self@, self@, r, dora_step(self@, e@)),
    {
        let dora_marker = parse_dora(e, self.aka)?;
        Ok(single(Event::Dora { dora_marker }))
    }

    /// Takes a meld.
    fn take_meld(&self, e: &Element) -> (r: Result<Vec<Event>, ConvertError>)
        ensures
            Self::stepped(self@, self@, r, meld_step(self@, e@)),
    {
        let (kind, actor, target, tiles) = parse_n(e, self.aka)?;
        proof {
            let meld = number_u16(e@, Tag::N, Attr::M).unwrap();
            lemma_meld_tiles_len(meld, self.aka);
        }
        Ok(single(make_meld_event(kind, actor, target, &tiles, self.aka)))
    }

    /// Takes a reach or its acceptance.
    fn take_reach(&mut self, e: &Element) -> (r: Result<Vec<Event>, ConvertError>)
        ensures
            Self::stepped(old(self)@, final(self)@, r, reach_step(old(self)@, e@)),
    {
        let (actor, step) = parse_reach(e)?;
        if step == 1 {
            Ok(single(Event::Reach { actor }))
        } else if step == 2 && self.reach_accepted < 4 {
            self.reach_accepted = self.reach_accepted + 1;
            Ok(single(Event::ReachAccepted { actor }))
        } else {
            Ok(nothing())
        }
    }

    /// Takes a win.
    fn take_agari(&mut self, e: &Element) -> (r: Result<Vec<Event>, ConvertError>)
        ensures
            Self::stepped(old(self)@, final(self)@, r, agari_step(old(self)@, e@)),
    {
        let (actor, target, ura_markers, deltas) = parse_agari(e, self.aka)?;
        let owari = check_if_owari(e)?;
        self.reach_accepted = 0;
        Ok(end_round(Event::Hora { actor, target, ura_markers, deltas }, owari))
    }

    /// Takes a drawn round.
    fn take_ryuukyoku(&mut self, e: &Element) -> (r: Result<Vec<Event>, ConvertError>)
        ensures
            Self::stepped(old(self)@, final(self)@, r, ryuukyoku_step(old(self)@, e@)),
    {
        let deltas = parse_ryuukyoku(e)?;
        let owari = check_if_owari(e)?;
        self.reach_accepted = 0;
        Ok(end_round(Event::Ryukyoku { deltas }, owari))
    }

    /// Takes a draw.
    fn take_draw(&mut self, seat: u8, tile: u8) -> (r: Result<Vec<Event>, ConvertError>)
        requires
            seat < 4,
            tile < 140,
        ensures
            Self::stepped(old(self)@, final(self)@, r, draw_step(old(self)@, seat, tile)),
    {
        match translate_mjlog_tile(tile, self.aka) {
            Some(pai) => {
                self.last_draw[seat as usize] = pai.to_canonical_id();
                Ok(single(Event::Tsumo { actor: seat, pai }))
            },
            None => Ok(nothing()),
        }
    }

    /// Takes a discard.
    fn take_discard(&self, seat: u8, tile: u8) -> (r: Result<Vec<Event>, ConvertError>)
        requires
            seat < 4,
            tile < 140,
        ensures
            Self::stepped(self@, self@, r, discard_step(self@, seat, tile)),
    {
        match translate_mjlog_tile(tile, self.aka) {
            Some(pai) => {
                let tsumogiri = self.last_draw[seat as usize] == pai.to_canonical_id();
                Ok(single(Event::Dahai { actor: seat, pai, tsumogiri }))
            },
            None => Ok(nothing()),
        }
    }

    /// Takes an element that stands alone.
    fn take_leaf(&mut self, e: &Element) -> (r: Result<Vec<Event>, ConvertError>)
        ensures
            Self::stepped(old(self)@, final(self)@, r, leaf_step(old(self)@, e@)),
    {
        match classify(e.name.as_str()) {
            ElementKind::Named(Tag::Go) => self.take_go(e),
            ElementKind::Named(Tag::Un) => self.take_un(e),
            ElementKind::Named(Tag::Taikyoku) => self.take_taikyoku(),
            ElementKind::Named(Tag::Init) => self.take_init(e),
            ElementKind::Named(Tag::Dora) => self.take_dora(e),
            ElementKind::Named(Tag::N) => self.take_meld(e),
            ElementKind::Named(Tag::Reach) => self.take_reach(e),
            ElementKind::Named(Tag::Agari) => self.take_agari(e),
            ElementKind::Named(Tag::Ryuukyoku) => self.take_ryuukyoku(e),
            ElementKind::Draw { seat, tile } => self.take_draw(seat, tile),
            ElementKind::Discard { seat, tile } => self.take_discard(seat, tile),
            _ => Ok(nothing()),
        }
    }

    /// Takes the next piece of the record: the state moves on, and the
    /// events of the piece come back. After a failure the conversion is
    /// over.
    pub fn step(&mut self, node: &XmlNode) -> (r: Result<Vec<Event>, ConvertError>)
        ensures
            Self::stepped(old(self)@, final(self)@, r, step(old(self)@, node@)),
    {
        match node {
            XmlNode::Open(e) => self.take_open(e),
            XmlNode::Leaf(e) => self.take_leaf(e),
            XmlNode::Other => Ok(nothing()),
        }
    }
}

/// A record fails as its beginning fails: the failure of the first piece
/// that fails is the failure of the record.
pub proof fn lemma_run_fails_early(st: ConversionView, nodes: Seq<XmlNodeView>, n: int)
    requires
        0 <= n <= nodes.len(),
        run(st, nodes.take(n)) is Err,
    ensures
        run(st, nodes) == run(st, nodes.take(n)),
    decreases nodes.len() - n,
{
    if n == nodes.len() {
        assert(nodes.take(n) =~= nodes);
    } else {
        assert(nodes.drop_last().take(n) =~= nodes.take(n));
        lemma_run_fails_early(st, nodes.drop_last(), n);
    }
}

/// The pieces of a record with one more piece behind them go as the pieces
/// go, and then as the one piece goes.
pub proof fn lemma_run_push(st: ConversionView, nodes: Seq<XmlNodeView>, node: XmlNodeView)
    ensures
        run(st, nodes.push(node)) == (match run(st, nodes) {
            Err(x) => Err(x),
            Ok((mid, events)) => match step(mid, node) {
                Err(x) => Err(x),
                Ok((next, more)) => Ok((next, events + more)),
            },
        }),
{
    assert(nodes.push(node).drop_last() =~= nodes);
}

/// Whether a conversion and its events stand where the pieces lead.
pub open spec fn stands_at(
    conversion: ConversionView,
    events: Seq<EventView>,
    nodes: Seq<XmlNodeView>,
) -> bool {
    run(ConversionView::initial(), nodes) == Ok::<(ConversionView, Seq<EventView>), ConvertError>(
        (conversion, events),
    )
}

/// Takes one more piece into a conversion that stands behind `done`, and
/// puts its events behind those that are there.
pub(crate) fn absorb(
    conversion: &mut Conversion,
    events: &mut Vec<Event>,
    node: &XmlNode,
    Ghost(done): Ghost<Seq<XmlNodeView>>,
) -> (r: Result<(), ConvertError>)
    requires
        stands_at(old(conversion)@, event_views(old(events)@), done),
    ensures
        match r {
            Ok(_) => stands_at(final(conversion)@, event_views(final(events)@), done.push(node@)),
            Err(x) => run(ConversionView::initial(), done.push(node@)) == Err::<
                (ConversionView, Seq<EventView>),
                ConvertError,
            >(x),
        },
{
    proof {
        lemma_run_push(ConversionView::initial(), done, node@);
    }
    match conversion.step(node) {
        Err(x) => Err(x),
        Ok(mut more) => {
            let ghost had = events@;
            let ghost added = more@;
            events.append(&mut more);
            assert(event_views(events@) =~= event_views(had) + event_views(added));
            Ok(())
        },
    }
}

/// Converts the pieces of a record: the events of all its pieces in order,
/// or the failure of the first piece that fails.
pub fn decode_nodes(nodes: &[XmlNode]) -> (r: Result<Vec<Event>, ConvertError>)
    ensures
        match events_of(node_views(nodes@)) {
            Ok(events) => r is Ok && event_views(r.unwrap()@) == events,
            Err(x) => r == Err::<Vec<Event>, ConvertError>(x),
        },
{
    let ghost all = node_views(nodes@);
    let mut conversion = Conversion::new();
    let mut events: Vec<Event> = Vec::new();
    let mut i: usize = 0;
    assert(all.take(0) =~= Seq::<XmlNodeView>::empty());
    assert(event_views(events@) =~= Seq::<EventView>::empty());
    while i < nodes.len()
        invariant
            i <= nodes@.len(),
            all == node_views(nodes@),
            stands_at(conversion@, event_views(events@), all.take(i as int)),
        decreases nodes@.len() - i,
    {
        assert(all.take(i + 1) =~= all.take(i as int).push(nodes@[i as int]@));
        match absorb(&mut conversion, &mut events, &nodes[i], Ghost(all.take(i as int))) {
            Err(x) => {
                proof {
                    lemma_run_fails_early(ConversionView::initial(), all, i + 1);
                }
                return Err(x);
            },
            Ok(_) => {},
        }
        i = i + 1;
    }
    assert(all.take(nodes@.len() as int) =~= all);
    Ok(events)
}

/// A step keeps the state well formed.
pub proof fn lemma_step_wf(st: ConversionView, node: XmlNodeView)
    requires
        st.wf(),
        step(st, node) is Ok,
    ensures
        step(st, node).unwrap().0.wf(),
{
    match node {
        XmlNodeView::Leaf(e) => {
            match element_kind(e.name) {
                ElementKind::Named(Tag::Un) => {
                    if !st.named {
                        assert(names_of(e).unwrap().len() == 4);
                    }
                },
                _ => {},
            }
        },
        _ => {},
    }
}

} // verus!
