//! The events of the mjai stream.
//!
//! An event is made once, by a converter, and never changed. The events of a
//! record stand in the order in which the record tells them.

use crate::tile::{tile_views, Tile, TileView};
use vstd::prelude::*;

verus! {

/// One event of a game. Seats are numbered from 0; points are given as the
/// record holds them, in single points.
#[allow(inconsistent_fields)]
#[derive(Clone, Debug, PartialEq, Eq)]
pub enum Event {
    StartGame { names: [String; 4], kyoku_first: u8, aka_flag: bool },
    StartKyoku {
        bakaze: Tile,
        dora_marker: Tile,
        kyoku: u8,
        honba: u8,
        kyotaku: u8,
        oya: u8,
        scores: [i32; 4],
        tehais: [[Tile; 13]; 4],
    },
    Tsumo { actor: u8, pai: Tile },
    Dahai { actor: u8, pai: Tile, tsumogiri: bool },
    Chi { actor: u8, target: u8, pai: Tile, consumed: [Tile; 2] },
    Pon { actor: u8, target: u8, pai: Tile, consumed: [Tile; 2] },
    Kakan { actor: u8, pai: Tile, consumed: [Tile; 3] },
    Ankan { actor: u8, consumed: [Tile; 4] },
    Daiminkan { actor: u8, target: u8, pai: Tile, consumed: [Tile; 3] },
    Reach { actor: u8 },
    ReachAccepted { actor: u8 },
    Dora { dora_marker: Tile },
    Hora { actor: u8, target: u8, ura_markers: Option<Vec<Tile>>, deltas: Option<[i32; 4]> },
    Ryukyoku { deltas: Option<[i32; 4]> },
    EndKyoku,
    EndGame,
}

/// What an event says, over sequences in place of arrays and texts.
#[allow(inconsistent_fields)]
pub enum EventView {
    StartGame { names: Seq<Seq<char>>, kyoku_first: u8, aka_flag: bool },
    StartKyoku {
        bakaze: TileView,
        dora_marker: TileView,
        kyoku: u8,
        honba: u8,
        kyotaku: u8,
        oya: u8,
        scores: Seq<i32>,
        tehais: Seq<Seq<TileView>>,
    },
    Tsumo { actor: u8, pai: TileView },
    Dahai { actor: u8, pai: TileView, tsumogiri: bool },
    Chi { actor: u8, target: u8, pai: TileView, consumed: Seq<TileView> },
    Pon { actor: u8, target: u8, pai: TileView, consumed: Seq<TileView> },
    Kakan { actor: u8, pai: TileView, consumed: Seq<TileView> },
    Ankan { actor: u8, consumed: Seq<TileView> },
    Daiminkan { actor: u8, target: u8, pai: TileView, consumed: Seq<TileView> },
    Reach { actor: u8 },
    ReachAccepted { actor: u8 },
    Dora { dora_marker: TileView },
    Hora { actor: u8, target: u8, ura_markers: Option<Seq<TileView>>, deltas: Option<Seq<i32>> },
    Ryukyoku { deltas: Option<Seq<i32>> },
    EndKyoku,
    EndGame,
}

/// The texts that a sequence of strings holds.
pub open spec fn string_views(s: Seq<String>) -> Seq<Seq<char>> {
    s.map_values(|name: String| name@)
}

/// The tiles of four hands, hand by hand.
pub open spec fn hand_views(hands: Seq<[Tile; 13]>) -> Seq<Seq<TileView>> {
    hands.map_values(|hand: [Tile; 13]| tile_views(hand@))
}

/// The four numbers of an array that may be absent.
pub open spec fn points_view(points: Option<[i32; 4]>) -> Option<Seq<i32>> {
    match points {
        Some(p) => Some(p@),
        None => None,
    }
}

/// The tiles of a list that may be absent.
pub open spec fn markers_view(markers: Option<Vec<Tile>>) -> Option<Seq<TileView>> {
    match markers {
        Some(m) => Some(tile_views(m@)),
        None => None,
    }
}

impl View for Event {
    type V = EventView;

    open spec fn view(&self) -> EventView {
        match *self {
            Event::StartGame { names, kyoku_first, aka_flag } => EventView::StartGame {
                names: string_views(names@),
                kyoku_first,
                aka_flag,
            },
            Event::StartKyoku {
                bakaze,
                dora_marker,
                kyoku,
                honba,
                kyotaku,
                oya,
                scores,
                tehais,
            } => EventView::StartKyoku {
                bakaze: bakaze@,
                dora_marker: dora_marker@,
                kyoku,
                honba,
                kyotaku,
                oya,
                scores: scores@,
                tehais: hand_views(tehais@),
            },
            Event::Tsumo { actor, pai } => EventView::Tsumo { actor, pai: pai@ },
            Event::Dahai { actor, pai, tsumogiri } => EventView::Dahai {
                actor,
                pai: pai@,
                tsumogiri,
            },
            Event::Chi { actor, target, pai, consumed } => EventView::Chi {
                actor,
                target,
                pai: pai@,
                consumed: tile_views(consumed@),
            },
            Event::Pon { actor, target, pai, consumed } => EventView::Pon {
                actor,
                target,
                pai: pai@,
                consumed: tile_views(consumed@),
            },
            Event::Kakan { actor, pai, consumed } => EventView::Kakan {
                actor,
                pai: pai@,
                consumed: tile_views(consumed@),
            },
            Event::Ankan { actor, consumed } => EventView::Ankan {
                actor,
                consumed: tile_views(consumed@),
            },
            Event::Daiminkan { actor, target, pai, consumed } => EventView::Daiminkan {
                actor,
                target,
                pai: pai@,
                consumed: tile_views(consumed@),
            },
            Event::Reach { actor } => EventView::Reach { actor },
            Event::ReachAccepted { actor } => EventView::ReachAccepted { actor },
            Event::Dora { dora_marker } => EventView::Dora { dora_marker: dora_marker@ },
            Event::Hora { actor, target, ura_markers, deltas } => EventView::Hora {
                actor,
                target,
                ura_markers: markers_view(ura_markers),
                deltas: points_view(deltas),
            },
            Event::Ryukyoku { deltas } => EventView::Ryukyoku { deltas: points_view(deltas) },
            Event::EndKyoku => EventView::EndKyoku,
            Event::EndGame => EventView::EndGame,
        }
    }
}

/// What a sequence of events says, event by event.
pub open spec fn event_views(events: Seq<Event>) -> Seq<EventView> {
    events.map_values(|event: Event| event@)
}

} // verus!
