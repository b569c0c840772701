//! What a tenhou/6 log holds.
//!
//! A round holds for each seat the hand dealt, the tiles taken and the
//! tiles given, each list in the order of the play. The order in which the
//! seats acted is not written down: it follows from the lists.

use crate::event::{points_view, string_views};
use crate::tile::{tile_views, Tile, TileView};
use vstd::prelude::*;

verus! {

/// What a seat takes: a tile from the wall, or the discard of another seat
/// with tiles of its own hand. `from` counts the seats from the caller to
/// the seat that gave the tile: 1 is the next seat, 3 the seat before.
#[derive(Clone, Copy, Debug, PartialEq, Eq)]
#[allow(inconsistent_fields)]
pub enum Take {
    Draw { pai: Tile },
    Chi { pai: Tile, consumed: [Tile; 2] },
    Pon { from: u8, pai: Tile, consumed: [Tile; 2] },
    Daiminkan { from: u8, pai: Tile, consumed: [Tile; 3] },
}

/// What a take holds.
#[allow(inconsistent_fields)]
pub enum TakeView {
    Draw { pai: TileView },
    Chi { pai: TileView, consumed: Seq<TileView> },
    Pon { from: u8, pai: TileView, consumed: Seq<TileView> },
    Daiminkan { from: u8, pai: TileView, consumed: Seq<TileView> },
}

impl View for Take {
    type V = TakeView;

    open spec fn view(&self) -> TakeView {
        match *self {
            Take::Draw { pai } => TakeView::Draw { pai: pai@ },
            Take::Chi { pai, consumed } => TakeView::Chi {
                pai: pai@,
                consumed: tile_views(consumed@),
            },
            Take::Pon { from, pai, consumed } => TakeView::Pon {
                from,
                pai: pai@,
                consumed: tile_views(consumed@),
            },
            Take::Daiminkan { from, pai, consumed } => TakeView::Daiminkan {
                from,
                pai: pai@,
                consumed: tile_views(consumed@),
            },
        }
    }
}

/// What a seat gives: a discard, with or without a reach, or a kan from
/// the hand. Behind an open kan of four the seat gives nothing and draws
/// again.
#[derive(Clone, Copy, Debug, PartialEq, Eq)]
#[allow(inconsistent_fields)]
pub enum Discard {
    /// A tile from the hand.
    Tile { pai: Tile },
    /// The tile just drawn.
    Tsumogiri,
    /// A reach with a tile from the hand.
    Reach { pai: Tile },
    /// A reach with the tile just drawn.
    ReachTsumogiri,
    /// A tile added to a pon.
    Kakan { pai: Tile, consumed: [Tile; 3] },
    /// Four tiles of the hand.
    Ankan { consumed: [Tile; 4] },
    /// Nothing, behind an open kan of four.
    Nothing,
}

/// What a discard holds.
#[allow(inconsistent_fields)]
pub enum DiscardView {
    Tile { pai: TileView },
    Tsumogiri,
    Reach { pai: TileView },
    ReachTsumogiri,
    Kakan { pai: TileView, consumed: Seq<TileView> },
    Ankan { consumed: Seq<TileView> },
    Nothing,
}

impl View for Discard {
    type V = DiscardView;

    open spec fn view(&self) -> DiscardView {
        match *self {
            Discard::Tile { pai } => DiscardView::Tile { pai: pai@ },
            Discard::Tsumogiri => DiscardView::Tsumogiri,
            Discard::Reach { pai } => DiscardView::Reach { pai: pai@ },
            Discard::ReachTsumogiri => DiscardView::ReachTsumogiri,
            Discard::Kakan { pai, consumed } => DiscardView::Kakan {
                pai: pai@,
                consumed: tile_views(consumed@),
            },
            Discard::Ankan { consumed } => DiscardView::Ankan { consumed: tile_views(consumed@) },
            Discard::Nothing => DiscardView::Nothing,
        }
    }
}

/// What the takes of a seat hold, one by one.
pub open spec fn take_views(takes: Seq<Take>) -> Seq<TakeView> {
    takes.map_values(|take: Take| take@)
}

/// What the discards of a seat hold, one by one.
pub open spec fn discard_views(discards: Seq<Discard>) -> Seq<DiscardView> {
    discards.map_values(|discard: Discard| discard@)
}

/// One seat in one round.
#[derive(Clone, Debug, PartialEq, Eq)]
pub struct Seat {
    pub haipai: [Tile; 13],
    pub takes: Vec<Take>,
    pub discards: Vec<Discard>,
}

/// What a seat holds.
pub struct SeatView {
    pub haipai: Seq<TileView>,
    pub takes: Seq<TakeView>,
    pub discards: Seq<DiscardView>,
}

impl View for Seat {
    type V = SeatView;

    open spec fn view(&self) -> SeatView {
        SeatView {
            haipai: tile_views(self.haipai@),
            takes: take_views(self.takes@),
            discards: discard_views(self.discards@),
        }
    }
}

/// One win of a round: who won, from whom, and how the scores change.
#[derive(Clone, Copy, Debug, PartialEq, Eq)]
pub struct HoraDetail {
    pub who: u8,
    pub target: u8,
    pub deltas: [i32; 4],
}

/// What a win holds.
pub struct HoraView {
    pub who: u8,
    pub target: u8,
    pub deltas: Seq<i32>,
}

impl View for HoraDetail {
    type V = HoraView;

    open spec fn view(&self) -> HoraView {
        HoraView { who: self.who, target: self.target, deltas: self.deltas@ }
    }
}

/// How a round ended: with one win or more, or drawn.
#[derive(Clone, Debug, PartialEq, Eq)]
pub enum EndStatus {
    Hora { details: Vec<HoraDetail> },
    Ryukyoku { deltas: Option<[i32; 4]> },
}

/// What the end of a round holds.
pub enum EndView {
    Hora { details: Seq<HoraView> },
    Ryukyoku { deltas: Option<Seq<i32>> },
}

/// What the wins of a round hold, one by one.
pub open spec fn hora_views(details: Seq<HoraDetail>) -> Seq<HoraView> {
    details.map_values(|detail: HoraDetail| detail@)
}

impl View for EndStatus {
    type V = EndView;

    open spec fn view(&self) -> EndView {
        match *self {
            EndStatus::Hora { details } => EndView::Hora { details: hora_views(details@) },
            EndStatus::Ryukyoku { deltas } => EndView::Ryukyoku { deltas: points_view(deltas) },
        }
    }
}

/// One round. `kyoku` counts the rounds of the game from 0: 0 to 3 are the
/// rounds of the east wind, 4 to 7 those of the south wind, and so on.
#[derive(Clone, Debug, PartialEq, Eq)]
pub struct Kyoku {
    pub kyoku: u8,
    pub honba: u8,
    pub kyotaku: u8,
    pub scores: [i32; 4],
    pub dora_indicators: Vec<Tile>,
    pub ura_indicators: Vec<Tile>,
    pub seats: [Seat; 4],
    pub end: EndStatus,
}

/// What a round holds.
pub struct KyokuView {
    pub kyoku: u8,
    pub honba: u8,
    pub kyotaku: u8,
    pub scores: Seq<i32>,
    pub dora_indicators: Seq<TileView>,
    pub ura_indicators: Seq<TileView>,
    pub seats: Seq<SeatView>,
    pub end: EndView,
}

/// What the seats of a round hold, seat by seat.
pub open spec fn seat_views(seats: Seq<Seat>) -> Seq<SeatView> {
    seats.map_values(|seat: Seat| seat@)
}

impl View for Kyoku {
    type V = KyokuView;

    open spec fn view(&self) -> KyokuView {
        KyokuView {
            kyoku: self.kyoku,
            honba: self.honba,
            kyotaku: self.kyotaku,
            scores: self.scores@,
            dora_indicators: tile_views(self.dora_indicators@),
            ura_indicators: tile_views(self.ura_indicators@),
            seats: seat_views(self.seats@),
            end: self.end@,
        }
    }
}

impl KyokuView {
    /// A round of one of the four winds, with four seats and four scores,
    /// and with lists that a machine can hold.
    pub open spec fn wf(self) -> bool {
        &&& self.kyoku < 16
        &&& self.seats.len() == 4
        &&& self.scores.len() == 4
        &&& self.dora_indicators.len() <= usize::MAX
        &&& forall|s: int|
            0 <= s < 4 ==> (#[trigger] self.seats[s]).takes.len() <= usize::MAX
                && self.seats[s].discards.len() <= usize::MAX
    }
}

/// A game. `kyoku_first` is 4 for a game of the east wind alone, 0 for a
/// game of east and south.
#[derive(Clone, Debug, PartialEq, Eq)]
pub struct Log {
    pub names: [String; 4],
    pub kyoku_first: u8,
    pub aka: bool,
    pub kyokus: Vec<Kyoku>,
}

/// What a game holds.
pub struct LogView {
    pub names: Seq<Seq<char>>,
    pub kyoku_first: u8,
    pub aka: bool,
    pub kyokus: Seq<KyokuView>,
}

/// What the rounds of a game hold, round by round.
pub open spec fn kyoku_views(kyokus: Seq<Kyoku>) -> Seq<KyokuView> {
    kyokus.map_values(|kyoku: Kyoku| kyoku@)
}

impl View for Log {
    type V = LogView;

    open spec fn view(&self) -> LogView {
        LogView {
            names: string_views(self.names@),
            kyoku_first: self.kyoku_first,
            aka: self.aka,
            kyokus: kyoku_views(self.kyokus@),
        }
    }
}

} // verus!
