//! The play of a round, put in order.
//!
//! A log holds what each seat took and gave, not the order in which the
//! seats acted. The order follows from the rules of the game. Play begins
//! with the dealer. A seat takes, then gives. Behind a discard the next seat
//! takes, unless another seat calls the discard for a pon or a kan: that seat
//! takes next. Behind a kan the same seat takes again. The round is over when
//! the seat in turn has nothing left to take or to give, and by then every
//! seat must have used up its lists: a log whose lists do not fit together
//! is refused, not cut short.

use crate::error::{ConvertError, Part};
use crate::event::{event_views, hand_views, markers_view, string_views, Event, EventView};
use crate::tenhou::log::{
    hora_views, Discard, DiscardView, EndStatus, EndView, HoraView, Kyoku, KyokuView, Log, LogView,
    Take, TakeView,
};
use crate::tile::{Tile, TileView};
use vstd::prelude::*;

verus! {

/// What a seat is about to do.
#[derive(Clone, Copy, Debug, PartialEq, Eq, Structural)]
pub enum Phase {
    Take,
    Give,
}

/// Where the play of a round stands.
pub struct PlayView {
    /// The seat in turn.
    pub actor: u8,
    pub phase: Phase,
    /// How many of its takes each seat has made.
    pub taken: Seq<usize>,
    /// How many of its gifts each seat has made.
    pub given: Seq<usize>,
    /// How many dora indicators lie open.
    pub doras: usize,
    /// The seat whose reach waits to be accepted.
    pub reach: Option<u8>,
    /// The tile that was drawn last.
    pub last_draw: TileView,
    /// Whether a kan waits for its indicator, which the next discard or the
    /// next kan turns over.
    pub need_dora: bool,
}

/// The failure of a round for one of its parts.
pub open spec fn mismatch(part: Part, round: u32) -> ConvertError {
    ConvertError::SchemaMismatch { part, round }
}

impl PlayView {
    /// The state of a round before its first take: the dealer is in turn,
    /// and the first dora indicator lies open.
    pub open spec fn start(k: KyokuView) -> PlayView {
        PlayView {
            actor: k.kyoku % 4,
            phase: Phase::Take,
            taken: seq![0usize, 0usize, 0usize, 0usize],
            given: seq![0usize, 0usize, 0usize, 0usize],
            doras: 1,
            reach: None,
            last_draw: TileView::unknown(),
            need_dora: false,
        }
    }

    /// A state of the round `k`: no seat is ahead of its lists.
    pub open spec fn wf(self, k: KyokuView) -> bool {
        &&& k.wf()
        &&& self.actor < 4
        &&& self.taken.len() == 4
        &&& self.given.len() == 4
        &&& forall|s: int| 0 <= s < 4 ==> self.taken[s] <= (#[trigger] k.seats[s]).takes.len()
        &&& forall|s: int| 0 <= s < 4 ==> self.given[s] <= (#[trigger] k.seats[s]).discards.len()
    }

    /// How many takes and gifts are yet to be made, all seats together.
    pub open spec fn remaining(self, k: KyokuView) -> int {
        (k.seats[0].takes.len() - self.taken[0]) + (k.seats[1].takes.len() - self.taken[1]) + (
        k.seats[2].takes.len() - self.taken[2]) + (k.seats[3].takes.len() - self.taken[3]) + (
        k.seats[0].discards.len() - self.given[0]) + (k.seats[1].discards.len() - self.given[1]) + (
        k.seats[2].discards.len() - self.given[2]) + (k.seats[3].discards.len() - self.given[3])
    }

    /// Whether every seat has used up its lists.
    pub open spec fn used_up(self, k: KyokuView) -> bool {
        self.remaining(k) == 0
    }
}

/// The seat that a caller names, counted from the caller.
pub open spec fn seat_from(actor: u8, from: u8) -> u8 {
    ((actor + from) % 4) as u8
}

/// The event of a take.
pub open spec fn take_event(actor: u8, take: TakeView) -> EventView {
    match take {
        TakeView::Draw { pai } => EventView::Tsumo { actor, pai },
        TakeView::Chi { pai, consumed } => EventView::Chi {
            actor,
            target: seat_from(actor, 3),
            pai,
            consumed,
        },
        TakeView::Pon { from, pai, consumed } => EventView::Pon {
            actor,
            target: seat_from(actor, from),
            pai,
            consumed,
        },
        TakeView::Daiminkan { from, pai, consumed } => EventView::Daiminkan {
            actor,
            target: seat_from(actor, from),
            pai,
            consumed,
        },
    }
}

/// Whether the next take of the seat `caller` is a pon or a kan of the
/// tile `pai` from the seat `giver`.
pub open spec fn calls(k: KyokuView, p: PlayView, caller: u8, giver: u8, pai: TileView) -> bool {
    let seat = k.seats[caller as int];
    let at = p.taken[caller as int];
    at < seat.takes.len() && match seat.takes[at as int] {
        TakeView::Pon { from, pai: called, .. } => seat_from(caller, from) == giver && called
            == pai,
        TakeView::Daiminkan { from, pai: called, .. } => seat_from(caller, from) == giver
            && called == pai,
        _ => false,
    }
}

/// The seat that takes behind a discard: the nearest seat that calls the
/// discard for a pon or a kan, or else the next seat.
pub open spec fn next_actor(k: KyokuView, p: PlayView, giver: u8, pai: TileView) -> u8 {
    if calls(k, p, seat_from(giver, 1), giver, pai) {
        seat_from(giver, 1)
    } else if calls(k, p, seat_from(giver, 2), giver, pai) {
        seat_from(giver, 2)
    } else if calls(k, p, seat_from(giver, 3), giver, pai) {
        seat_from(giver, 3)
    } else {
        seat_from(giver, 1)
    }
}

/// What one step of the play gives.
pub enum Advance {
    /// The round goes on: the next state, and the events of the step.
    Next(PlayView, Seq<EventView>),
    /// The seat in turn has nothing left to do.
    Done,
}

/// The indicator that a waiting kan turns over, as an event, and the count
/// of open indicators behind it; nothing where no kan waits.
pub open spec fn turn_over(k: KyokuView, p: PlayView, round: u32) -> Result<
    (Seq<EventView>, usize),
    ConvertError,
> {
    if !p.need_dora {
        Ok((Seq::empty(), p.doras))
    } else if p.doras < k.dora_indicators.len() {
        Ok((seq![EventView::Dora { dora_marker: k.dora_indicators[p.doras as int] }], (p.doras
            + 1) as usize))
    } else {
        Err(mismatch(Part::Dora, round))
    }
}

/// A take of the seat in turn. A reach that waited is accepted first: the
/// discard that came with it was not won on.
pub open spec fn advance_take(k: KyokuView, p: PlayView) -> Advance {
    let a = p.actor as int;
    let take = k.seats[a].takes[p.taken[a] as int];
    let accepted = match p.reach {
        Some(seat) => seq![EventView::ReachAccepted { actor: seat }],
        None => Seq::empty(),
    };
    Advance::Next(
        PlayView {
            phase: Phase::Give,
            taken: p.taken.update(a, (p.taken[a] + 1) as usize),
            reach: None,
            last_draw: match take {
                TakeView::Draw { pai } => pai,
                _ => p.last_draw,
            },
            need_dora: p.need_dora || take is Daiminkan,
            ..p
        },
        accepted.push(take_event(p.actor, take)),
    )
}

/// A discard of the seat in turn, with or without a reach: the indicator of
/// a waiting kan is turned over behind it, and the seat that takes next is
/// found.
pub open spec fn advance_discard(
    k: KyokuView,
    p: PlayView,
    round: u32,
    pai: TileView,
    tsumogiri: bool,
    reach: bool,
) -> Result<Advance, ConvertError> {
    let a = p.actor as int;
    let given = p.given.update(a, (p.given[a] + 1) as usize);
    let declared = if reach {
        seq![EventView::Reach { actor: p.actor }]
    } else {
        Seq::empty()
    };
    match turn_over(k, p, round) {
        Err(x) => Err(x),
        Ok((revealed, doras)) => Ok(
            Advance::Next(
                PlayView {
                    actor: next_actor(k, p, p.actor, pai),
                    phase: Phase::Take,
                    given,
                    doras,
                    reach: if reach {
                        Some(p.actor)
                    } else {
                        None
                    },
                    need_dora: false,
                    ..p
                },
                declared.push(EventView::Dahai { actor: p.actor, pai, tsumogiri }) + revealed,
            ),
        ),
    }
}

/// A gift of the seat in turn: a discard, or a kan from the hand, behind
/// which the same seat takes again. A kan first turns over the indicator of
/// a kan that waits. A concealed kan turns over its own indicator at once;
/// a kan added to a pon waits for the next discard.
pub open spec fn advance_give(k: KyokuView, p: PlayView, round: u32) -> Result<
    Advance,
    ConvertError,
> {
    let a = p.actor as int;
    let given = p.given.update(a, (p.given[a] + 1) as usize);
    match k.seats[a].discards[p.given[a] as int] {
        DiscardView::Tile { pai } => advance_discard(k, p, round, pai, false, false),
        DiscardView::Tsumogiri => advance_discard(k, p, round, p.last_draw, true, false),
        DiscardView::Reach { pai } => advance_discard(k, p, round, pai, false, true),
        DiscardView::ReachTsumogiri => advance_discard(k, p, round, p.last_draw, true, true),
        DiscardView::Nothing => Ok(
            Advance::Next(PlayView { phase: Phase::Take, given, ..p }, Seq::empty()),
        ),
        DiscardView::Kakan { pai, consumed } => match turn_over(k, p, round) {
            Err(x) => Err(x),
            Ok((revealed, doras)) => Ok(
                Advance::Next(
                    PlayView { phase: Phase::Take, given, doras, need_dora: true, ..p },
                    revealed.push(EventView::Kakan { actor: p.actor, pai, consumed }),
                ),
            ),
        },
        DiscardView::Ankan { consumed } => match turn_over(k, p, round) {
            Err(x) => Err(x),
            Ok((revealed, doras)) => if doras < k.dora_indicators.len() {
                Ok(
                    Advance::Next(
                        PlayView {
                            phase: Phase::Take,
                            given,
                            doras: (doras + 1) as usize,
                            need_dora: false,
                            ..p
                        },
                        revealed.push(EventView::Ankan { actor: p.actor, consumed }).push(
                            EventView::Dora { dora_marker: k.dora_indicators[doras as int] },
                        ),
                    ),
                )
            } else {
                Err(mismatch(Part::Dora, round))
            },
        },
    }
}

/// One step of the play. Where the seat in turn has nothing left to do the
/// round is over, and every seat must have used up its lists.
pub open spec fn advance(k: KyokuView, p: PlayView, round: u32) -> Result<Advance, ConvertError> {
    let a = p.actor as int;
    match p.phase {
        Phase::Take => if p.taken[a] < k.seats[a].takes.len() {
            Ok(advance_take(k, p))
        } else if p.used_up(k) {
            Ok(Advance::Done)
        } else {
            Err(mismatch(Part::Takes, round))
        },
        Phase::Give => if p.given[a] < k.seats[a].discards.len() {
            advance_give(k, p, round)
        } else if p.used_up(k) {
            Ok(Advance::Done)
        } else {
            Err(mismatch(Part::Discards, round))
        },
    }
}

/// The events of the play from a state on, to the end of the round. The
/// play goes on only while its steps use up the lists, as every step from a
/// state of the round does.
pub open spec fn play(k: KyokuView, p: PlayView, round: u32) -> Result<
    Seq<EventView>,
    ConvertError,
>
    decreases p.remaining(k),
{
    match advance(k, p, round) {
        Err(x) => Err(x),
        Ok(Advance::Done) => Ok(Seq::empty()),
        Ok(Advance::Next(q, events)) => if 0 <= q.remaining(k) < p.remaining(k) {
            match play(k, q, round) {
                Err(x) => Err(x),
                Ok(rest) => Ok(events + rest),
            }
        } else {
            Ok(events)
        },
    }
}

/// Every step of the play uses up one item of a list and leaves a state of
/// the round.
pub proof fn lemma_advance(k: KyokuView, p: PlayView, round: u32)
    requires
        p.wf(k),
    ensures
        advance(k, p, round) matches Ok(Advance::Next(q, _)) ==> q.wf(k) && q.remaining(k)
            == p.remaining(k) - 1,
        p.remaining(k) >= 0,
{
    let a = p.actor as int;
    assert(k.seats[a].takes.len() <= usize::MAX && k.seats[a].discards.len() <= usize::MAX);
    assert(k.seats[0].takes.len() >= p.taken[0]);
    assert(k.seats[1].takes.len() >= p.taken[1]);
    assert(k.seats[2].takes.len() >= p.taken[2]);
    assert(k.seats[3].takes.len() >= p.taken[3]);
    assert(k.seats[0].discards.len() >= p.given[0]);
    assert(k.seats[1].discards.len() >= p.given[1]);
    assert(k.seats[2].discards.len() >= p.given[2]);
    assert(k.seats[3].discards.len() >= p.given[3]);
    match advance(k, p, round) {
        Ok(Advance::Next(q, _)) => {
            assert(q.taken.len() == 4 && q.given.len() == 4);
            assert(q.actor < 4);
            assert(a == 0 || a == 1 || a == 2 || a == 3);
            match p.phase {
                Phase::Take => {
                    assert(q.given == p.given);
                    assert(q.taken == p.taken.update(a, (p.taken[a] + 1) as usize));
                    assert(p.taken[a] < k.seats[a].takes.len());
                },
                Phase::Give => {
                    assert(q.taken == p.taken);
                    assert(q.given == p.given.update(a, (p.given[a] + 1) as usize));
                    assert(p.given[a] < k.seats[a].discards.len());
                },
            }
            assert(q.remaining(k) == p.remaining(k) - 1);
            assert forall|s: int| 0 <= s < 4 implies q.taken[s] <= (#[trigger] k.seats[s]).takes.len() by {
                assert(p.taken[s] <= k.seats[s].takes.len());
            }
            assert forall|s: int| 0 <= s < 4 implies q.given[s] <= (
            #[trigger] k.seats[s]).discards.len() by {
                assert(p.given[s] <= k.seats[s].discards.len());
            }
        },
        _ => {},
    }
}

/// The first event of a round. The wind of the round and the dealer follow
/// from the number of the round; the first dora indicator must be there.
pub open spec fn start_kyoku(k: KyokuView, round: u32) -> Result<EventView, ConvertError> {
    if k.dora_indicators.len() == 0 {
        Err(mismatch(Part::Dora, round))
    } else {
        Ok(
            EventView::StartKyoku {
                bakaze: TileView { kind: (27 + k.kyoku / 4) as nat, red: false },
                dora_marker: k.dora_indicators[0],
                kyoku: (k.kyoku % 4 + 1) as u8,
                honba: k.honba,
                kyotaku: k.kyotaku,
                oya: k.kyoku % 4,
                scores: k.scores,
                tehais: seq![
                    k.seats[0].haipai,
                    k.seats[1].haipai,
                    k.seats[2].haipai,
                    k.seats[3].haipai,
                ],
            },
        )
    }
}

/// The indicators under the dora indicators as a win shows them: none
/// where the log holds none.
pub open spec fn ura_markers(k: KyokuView) -> Option<Seq<TileView>> {
    if k.ura_indicators.len() == 0 {
        None
    } else {
        Some(k.ura_indicators)
    }
}

/// The events of the wins of a round, win by win.
pub open spec fn hora_events(k: KyokuView, details: Seq<HoraView>) -> Seq<EventView> {
    details.map_values(
        |detail: HoraView|
            EventView::Hora {
                actor: detail.who,
                target: detail.target,
                ura_markers: ura_markers(k),
                deltas: Some(detail.deltas),
            },
    )
}

/// The events of the end of a round: its wins or its draw, and the end of
/// the round.
pub open spec fn end_events(k: KyokuView) -> Seq<EventView> {
    match k.end {
        EndView::Hora { details } => hora_events(k, details).push(EventView::EndKyoku),
        EndView::Ryukyoku { deltas } => seq![EventView::Ryukyoku { deltas }, EventView::EndKyoku],
    }
}

/// The events of a round: its start, its play in order, its end.
pub open spec fn kyoku_events(k: KyokuView, round: u32) -> Result<Seq<EventView>, ConvertError> {
    if k.kyoku >= 16 {
        Err(mismatch(Part::Meta, round))
    } else {
        match start_kyoku(k, round) {
            Err(x) => Err(x),
            Ok(start) => match play(k, PlayView::start(k), round) {
                Err(x) => Err(x),
                Ok(events) => Ok(seq![start] + events + end_events(k)),
            },
        }
    }
}

/// A round begins with its start and ends with its end, whatever is played
/// between them.
pub proof fn lemma_kyoku_bounded(k: KyokuView, round: u32)
    requires
        kyoku_events(k, round) is Ok,
    ensures
        kyoku_events(k, round).unwrap().len() >= 2,
        kyoku_events(k, round).unwrap().first() is StartKyoku,
        kyoku_events(k, round).unwrap().last() == EventView::EndKyoku,
{
    let events = kyoku_events(k, round).unwrap();
    let middle = play(k, PlayView::start(k), round).unwrap();
    let end = end_events(k);
    assert(end.len() >= 1 && end.last() == EventView::EndKyoku);
    assert(events =~= seq![start_kyoku(k, round).unwrap()] + middle + end);
    assert(events.last() == end.last());
}

/// Events behind events that are there, or the failure to get them.
pub open spec fn behind(done: Seq<EventView>, rest: Result<Seq<EventView>, ConvertError>) -> Result<
    Seq<EventView>,
    ConvertError,
> {
    match rest {
        Ok(events) => Ok(done + events),
        Err(x) => Err(x),
    }
}

/// The play from a state on is the step from that state and then the play
/// from the next state on.
pub proof fn lemma_play_unfolds(k: KyokuView, p: PlayView, round: u32)
    requires
        p.wf(k),
    ensures
        play(k, p, round) == (match advance(k, p, round) {
            Err(x) => Err(x),
            Ok(Advance::Done) => Ok(Seq::empty()),
            Ok(Advance::Next(q, events)) => behind(events, play(k, q, round)),
        }),
{
    lemma_advance(k, p, round);
    match advance(k, p, round) {
        Ok(Advance::Next(q, events)) => {
            lemma_advance(k, q, round);
        },
        _ => {},
    }
}

/// The place of a round in the log, as failures give it.
pub open spec fn round_number(place: int) -> u32 {
    if place <= u32::MAX {
        place as u32
    } else {
        u32::MAX
    }
}

/// The events of the first `n` rounds of a game, or the failure of the
/// first round that fails.
pub open spec fn rounds_events(kyokus: Seq<KyokuView>, n: int) -> Result<
    Seq<EventView>,
    ConvertError,
>
    decreases n,
{
    if n <= 0 {
        Ok(Seq::empty())
    } else {
        match rounds_events(kyokus, n - 1) {
            Err(x) => Err(x),
            Ok(events) => behind(events, kyoku_events(kyokus[n - 1], round_number(n - 1))),
        }
    }
}

/// The events of a game: its start with the names and the rules, its
/// rounds in order, its end.
pub open spec fn log_events(log: LogView) -> Result<Seq<EventView>, ConvertError> {
    match rounds_events(log.kyokus, log.kyokus.len() as int) {
        Err(x) => Err(x),
        Ok(events) => Ok(
            seq![
                EventView::StartGame {
                    names: log.names,
                    kyoku_first: log.kyoku_first,
                    aka_flag: log.aka,
                },
            ] + events + seq![EventView::EndGame],
        ),
    }
}

/// Where the play of a round stands.
pub struct Play {
    actor: u8,
    phase: Phase,
    taken: [usize; 4],
    given: [usize; 4],
    doras: usize,
    reach: Option<u8>,
    last_draw: Tile,
    need_dora: bool,
}

impl View for Play {
    type V = PlayView;

    closed spec fn view(&self) -> PlayView {
        PlayView {
            actor: self.actor,
            phase: self.phase,
            taken: self.taken@,
            given: self.given@,
            doras: self.doras,
            reach: self.reach,
            last_draw: self.last_draw@,
            need_dora: self.need_dora,
        }
    }
}

/// The seat that a caller names, counted from the caller.
fn seat_after(actor: u8, from: u8) -> (seat: u8)
    ensures
        seat == seat_from(actor, from),
        seat < 4,
{
    ((actor as u16 + from as u16) % 4) as u8
}

/// Puts an event behind the events that are there.
fn emit(events: &mut Vec<Event>, event: Event)
    ensures
        event_views(final(events)@) == event_views(old(events)@).push(event@),
{
    events.push(event);
    assert(event_views(events@) =~= event_views(old(events)@).push(event@));
}

/// The event of a take.
fn event_of_take(actor: u8, take: &Take) -> (event: Event)
    ensures
        event@ == take_event(actor, take@),
{
    match *take {
        Take::Draw { pai } => Event::Tsumo { actor, pai },
        Take::Chi { pai, consumed } => Event::Chi {
            actor,
            target: seat_after(actor, 3),
            pai,
            consumed,
        },
        Take::Pon { from, pai, consumed } => Event::Pon {
            actor,
            target: seat_after(actor, from),
            pai,
            consumed,
        },
        Take::Daiminkan { from, pai, consumed } => Event::Daiminkan {
            actor,
            target: seat_after(actor, from),
            pai,
            consumed,
        },
    }
}

impl Play {
    /// The state of a round before its first take.
    fn start(k: &Kyoku) -> (p: Play)
        ensures
            p@ == PlayView::start(k@),
    {
        let p = Play {
            actor: k.kyoku % 4,
            phase: Phase::Take,
            taken: [0, 0, 0, 0],
            given: [0, 0, 0, 0],
            doras: 1,
            reach: None,
            last_draw: Tile::unknown(),
            need_dora: false,
        };
        assert(p@.taken =~= PlayView::start(k@).taken);
        assert(p@.given =~= PlayView::start(k@).given);
        p
    }

    /// Whether the next take of the seat `caller` is a pon or a kan of the
    /// tile `pai` from the seat `giver`.
    fn calls(&self, k: &Kyoku, caller: u8, giver: u8, pai: &Tile) -> (b: bool)
        requires
            self@.wf(k@),
            caller < 4,
        ensures
            b == calls(k@, self@, caller, giver, pai@),
    {
        let seat = &k.seats[caller as usize];
        let at = self.taken[caller as usize];
        assert(k@.seats[caller as int] == seat@);
        if at < seat.takes.len() {
            assert(seat@.takes[at as int] == seat.takes@[at as int]@);
            match seat.takes[at] {
                Take::Pon { from, pai: called, .. } => seat_after(caller, from) == giver
                    && called.same(pai),
                Take::Daiminkan { from, pai: called, .. } => seat_after(caller, from) == giver
                    && called.same(pai),
                _ => false,
            }
        } else {
            false
        }
    }

    /// The seat that takes behind a discard.
    fn next_actor(&self, k: &Kyoku, giver: u8, pai: &Tile) -> (seat: u8)
        requires
            self@.wf(k@),
        ensures
            seat == next_actor(k@, self@, giver, pai@),
            seat < 4,
    {
        let s1 = seat_after(giver, 1);
        let s2 = seat_after(giver, 2);
        let s3 = seat_after(giver, 3);
        if self.calls(k, s1, giver, pai) {
            s1
        } else if self.calls(k, s2, giver, pai) {
            s2
        } else if self.calls(k, s3, giver, pai) {
            s3
        } else {
            s1
        }
    }

    /// Turns over the indicator of a kan that waits, if one waits.
    fn turn_over(&mut self, k: &Kyoku, round: u32, events: &mut Vec<Event>) -> (r: Result<
        (),
        ConvertError,
    >)
        requires
            old(self)@.wf(k@),
        ensures
            match turn_over(k@, old(self)@, round) {
                Err(x) => r == Err::<(), ConvertError>(x),
                Ok((revealed, doras)) => r is Ok && event_views(final(events)@) == event_views(
                    old(events)@,
                ) + revealed && final(self)@ == (PlayView { doras, need_dora: false, ..old(self)@ }),
            },
    {
        if !self.need_dora {
            assert(event_views(events@) =~= event_views(events@) + Seq::<EventView>::empty());
            Ok(())
        } else if self.doras < k.dora_indicators.len() {
            let dora_marker = k.dora_indicators[self.doras];
            assert(k@.dora_indicators[self.doras as int] == dora_marker@);
            emit(events, Event::Dora { dora_marker });
            self.doras = self.doras + 1;
            self.need_dora = false;
            assert(event_views(events@) =~= event_views(old(events)@) + seq![
                EventView::Dora { dora_marker: dora_marker@ },
            ]);
            Ok(())
        } else {
            Err(ConvertError::SchemaMismatch { part: Part::Dora, round })
        }
    }

    /// Makes the take of the seat in turn.
    fn take(&mut self, k: &Kyoku, events: &mut Vec<Event>)
        requires
            old(self)@.wf(k@),
            old(self)@.taken[old(self)@.actor as int] < k@.seats[old(self)@.actor as int].takes.len(),
        ensures
            advance_take(k@, old(self)@) == Advance::Next(
                final(self)@,
                event_views(final(events)@).skip(old(events)@.len() as int),
            ),
            event_views(final(events)@).take(old(events)@.len() as int) == event_views(old(events)@),
            old(events)@.len() <= final(events)@.len(),
    {
        let a = self.actor as usize;
        let seat = &k.seats[a];
        assert(k@.seats[a as int] == seat@);
        let take = seat.takes[self.taken[a]];
        assert(seat@.takes[self.taken[a as int] as int] == take@);
        let ghost before = event_views(events@);
        match self.reach {
            Some(seat) => {
                emit(events, Event::ReachAccepted { actor: seat });
            },
            None => {},
        }
        emit(events, event_of_take(self.actor, &take));
        self.taken[a] = self.taken[a] + 1;
        self.phase = Phase::Give;
        self.reach = None;
        match take {
            Take::Draw { pai } => {
                self.last_draw = pai;
            },
            Take::Daiminkan { .. } => {
                self.need_dora = true;
            },
            _ => {},
        }
        proof {
            let expected = advance_take(k@, old(self)@);
            assert(event_views(events@).take(before.len() as int) =~= before);
            assert(event_views(events@).skip(before.len() as int) =~= expected->Next_1);
            assert(self@.taken =~= expected->Next_0.taken);
        }
    }

    /// Makes a discard of the seat in turn.
    fn discard(
        &mut self,
        k: &Kyoku,
        round: u32,
        events: &mut Vec<Event>,
        pai: Tile,
        tsumogiri: bool,
        reach: bool,
    ) -> (r: Result<(), ConvertError>)
        requires
            old(self)@.wf(k@),
            old(self)@.given[old(self)@.actor as int] < k@.seats[old(
                self,
            )@.actor as int].discards.len(),
        ensures
            match advance_discard(k@, old(self)@, round, pai@, tsumogiri, reach) {
                Err(x) => r == Err::<(), ConvertError>(x),
                Ok(step) => r is Ok && step == Advance::Next(
                    final(self)@,
                    event_views(final(events)@).skip(old(events)@.len() as int),
                ) && event_views(final(events)@).take(old(events)@.len() as int) == event_views(
                    old(events)@,
                ) && old(events)@.len() <= final(events)@.len(),
            },
    {
        let a = self.actor as usize;
        let next = self.next_actor(k, self.actor, &pai);
        let ghost before = event_views(events@);
        let ghost declared = if reach {
            seq![EventView::Reach { actor: self.actor }]
        } else {
            Seq::<EventView>::empty()
        };
        if self.need_dora && self.doras >= k.dora_indicators.len() {
            return Err(ConvertError::SchemaMismatch { part: Part::Dora, round });
        }
        if reach {
            emit(events, Event::Reach { actor: self.actor });
        }
        emit(events, Event::Dahai { actor: self.actor, pai, tsumogiri });
        let ghost mid = event_views(events@);
        assert(mid =~= before + declared.push(
            EventView::Dahai { actor: self.actor, pai: pai@, tsumogiri },
        ));
        match self.turn_over(k, round, events) {
            Err(x) => {
                return Err(x);
            },
            Ok(_) => {},
        }
        self.given[a] = self.given[a] + 1;
        self.reach = if reach {
            Some(self.actor)
        } else {
            None
        };
        self.actor = next;
        self.phase = Phase::Take;
        proof {
            let expected = advance_discard(k@, old(self)@, round, pai@, tsumogiri, reach).unwrap();
            assert(event_views(events@).take(before.len() as int) =~= before);
            assert(event_views(events@).skip(before.len() as int) =~= expected->Next_1);
            assert(self@.given =~= expected->Next_0.given);
        }
        Ok(())
    }

    /// Makes the gift of the seat in turn.
    fn give(&mut self, k: &Kyoku, round: u32, events: &mut Vec<Event>) -> (r: Result<
        (),
        ConvertError,
    >)
        requires
            old(self)@.wf(k@),
            old(self)@.given[old(self)@.actor as int] < k@.seats[old(
                self,
            )@.actor as int].discards.len(),
        ensures
            match advance_give(k@, old(self)@, round) {
                Err(x) => r == Err::<(), ConvertError>(x),
                Ok(step) => r is Ok && step == Advance::Next(
                    final(self)@,
                    event_views(final(events)@).skip(old(events)@.len() as int),
                ) && event_views(final(events)@).take(old(events)@.len() as int) == event_views(
                    old(events)@,
                ) && old(events)@.len() <= final(events)@.len(),
            },
    {
        let a = self.actor as usize;
        let seat = &k.seats[a];
        assert(k@.seats[a as int] == seat@);
        let discard = seat.discards[self.given[a]];
        assert(seat@.discards[self.given[a as int] as int] == discard@);
        let ghost before = event_views(events@);
        match discard {
            Discard::Tile { pai } => self.discard(k, round, events, pai, false, false),
            Discard::Tsumogiri => self.discard(k, round, events, self.last_draw, true, false),
            Discard::Reach { pai } => self.discard(k, round, events, pai, false, true),
            Discard::ReachTsumogiri => self.discard(k, round, events, self.last_draw, true, true),
            Discard::Nothing => {
                self.given[a] = self.given[a] + 1;
                self.phase = Phase::Take;
                proof {
                    let expected = advance_give(k@, old(self)@, round).unwrap();
                    assert(event_views(events@).take(before.len() as int) =~= before);
                    assert(event_views(events@).skip(before.len() as int) =~= expected->Next_1);
                    assert(self@.given =~= expected->Next_0.given);
                }
                Ok(())
            },
            Discard::Kakan { pai, consumed } => {
                match self.turn_over(k, round, events) {
                    Err(x) => {
                        return Err(x);
                    },
                    Ok(_) => {},
                }
                emit(events, Event::Kakan { actor: self.actor, pai, consumed });
                self.given[a] = self.given[a] + 1;
                self.phase = Phase::Take;
                self.need_dora = true;
                proof {
                    let expected = advance_give(k@, old(self)@, round).unwrap();
                    assert(event_views(events@).take(before.len() as int) =~= before);
                    assert(event_views(events@).skip(before.len() as int) =~= expected->Next_1);
                    assert(self@.given =~= expected->Next_0.given);
                }
                Ok(())
            },
            Discard::Ankan { consumed } => {
                match self.turn_over(k, round, events) {
                    Err(x) => {
                        return Err(x);
                    },
                    Ok(_) => {},
                }
                if self.doras >= k.dora_indicators.len() {
                    return Err(ConvertError::SchemaMismatch { part: Part::Dora, round });
                }
                let dora_marker = k.dora_indicators[self.doras];
                assert(k@.dora_indicators[self.doras as int] == dora_marker@);
                emit(events, Event::Ankan { actor: self.actor, consumed });
                emit(events, Event::Dora { dora_marker });
                self.doras = self.doras + 1;
                self.given[a] = self.given[a] + 1;
                self.phase = Phase::Take;
                proof {
                    let expected = advance_give(k@, old(self)@, round).unwrap();
                    assert(event_views(events@).take(before.len() as int) =~= before);
                    assert(event_views(events@).skip(before.len() as int) =~= expected->Next_1);
                    assert(self@.given =~= expected->Next_0.given);
                }
                Ok(())
            },
        }
    }

    /// Whether every seat has used up its lists.
    fn used_up(&self, k: &Kyoku) -> (b: bool)
        requires
            self@.wf(k@),
        ensures
            b == self@.used_up(k@),
    {
        assert(k@.seats[0] == k.seats@[0]@ && k@.seats[1] == k.seats@[1]@ && k@.seats[2]
            == k.seats@[2]@ && k@.seats[3] == k.seats@[3]@);
        self.taken[0] == k.seats[0].takes.len() && self.taken[1] == k.seats[1].takes.len()
            && self.taken[2] == k.seats[2].takes.len() && self.taken[3] == k.seats[3].takes.len()
            && self.given[0] == k.seats[0].discards.len() && self.given[1]
            == k.seats[1].discards.len() && self.given[2] == k.seats[2].discards.len()
            && self.given[3] == k.seats[3].discards.len()
    }

    /// Makes one step of the play and puts its events behind those that are
    /// there. Gives `false` where the round is over.
    fn advance(&mut self, k: &Kyoku, round: u32, events: &mut Vec<Event>) -> (r: Result<
        bool,
        ConvertError,
    >)
        requires
            old(self)@.wf(k@),
        ensures
            match advance(k@, old(self)@, round) {
                Err(x) => r == Err::<bool, ConvertError>(x),
                Ok(Advance::Done) => r == Ok::<bool, ConvertError>(false) && final(events)@ == old(
                    events,
                )@ && final(self)@ == old(self)@,
                Ok(Advance::Next(q, more)) => r == Ok::<bool, ConvertError>(true) && final(self)@
                    == q && event_views(final(events)@) == event_views(old(events)@) + more,
            },
    {
        let a = self.actor as usize;
        assert(k@.seats[a as int] == k.seats@[a as int]@);
        let ghost before = event_views(events@);
        match self.phase {
            Phase::Take => {
                if self.taken[a] < k.seats[a].takes.len() {
                    self.take(k, events);
                    assert(event_views(events@) =~= before + event_views(events@).skip(
                        before.len() as int,
                    ));
                    Ok(true)
                } else if self.used_up(k) {
                    Ok(false)
                } else {
                    Err(ConvertError::SchemaMismatch { part: Part::Takes, round })
                }
            },
            Phase::Give => {
                if self.given[a] < k.seats[a].discards.len() {
                    match self.give(k, round, events) {
                        Err(x) => Err(x),
                        Ok(_) => {
                            assert(event_views(events@) =~= before + event_views(events@).skip(
                                before.len() as int,
                            ));
                            Ok(true)
                        },
                    }
                } else if self.used_up(k) {
                    Ok(false)
                } else {
                    Err(ConvertError::SchemaMismatch { part: Part::Discards, round })
                }
            },
        }
    }
}

/// The first event of a round.
fn start_event(k: &Kyoku, round: u32) -> (r: Result<Event, ConvertError>)
    requires
        k.kyoku < 16,
    ensures
        match start_kyoku(k@, round) {
            Ok(event) => r is Ok && r.unwrap()@ == event,
            Err(x) => r == Err::<Event, ConvertError>(x),
        },
{
    if k.dora_indicators.len() == 0 {
        return Err(ConvertError::SchemaMismatch { part: Part::Dora, round });
    }
    let dora_marker = k.dora_indicators[0];
    assert(k@.dora_indicators[0] == dora_marker@);
    let tehais = [k.seats[0].haipai, k.seats[1].haipai, k.seats[2].haipai, k.seats[3].haipai];
    proof {
        assert(k@.seats[0] == k.seats@[0]@ && k@.seats[1] == k.seats@[1]@ && k@.seats[2]
            == k.seats@[2]@ && k@.seats[3] == k.seats@[3]@);
        assert(hand_views(tehais@) =~= seq![
            k@.seats[0].haipai,
            k@.seats[1].haipai,
            k@.seats[2].haipai,
            k@.seats[3].haipai,
        ]);
    }
    Ok(
        Event::StartKyoku {
            bakaze: Tile::plain(27 + k.kyoku / 4),
            dora_marker,
            kyoku: k.kyoku % 4 + 1,
            honba: k.honba,
            kyotaku: k.kyotaku,
            oya: k.kyoku % 4,
            scores: k.scores,
            tehais,
        },
    )
}

/// The indicators under the dora indicators as a win shows them.
fn ura_of(k: &Kyoku) -> (r: Option<Vec<Tile>>)
    ensures
        markers_view(r) == ura_markers(k@),
{
    if k.ura_indicators.len() == 0 {
        None
    } else {
        Some(k.ura_indicators.clone())
    }
}

/// Puts the events of the end of a round behind the events that are there.
fn emit_end(k: &Kyoku, events: &mut Vec<Event>)
    ensures
        event_views(final(events)@) == event_views(old(events)@) + end_events(k@),
{
    let ghost before = event_views(events@);
    match &k.end {
        EndStatus::Hora { details } => {
            let ghost wins = hora_events(k@, hora_views(details@));
            let mut i: usize = 0;
            assert(before =~= before + wins.take(0));
            while i < details.len()
                invariant
                    i <= details@.len(),
                    wins == hora_events(k@, hora_views(details@)),
                    event_views(events@) == before + wins.take(i as int),
                decreases details@.len() - i,
            {
                let detail = details[i];
                let event = Event::Hora {
                    actor: detail.who,
                    target: detail.target,
                    ura_markers: ura_of(k),
                    deltas: Some(detail.deltas),
                };
                assert(event@ == wins[i as int]);
                emit(events, event);
                assert(before + wins.take(i + 1) =~= (before + wins.take(i as int)).push(
                    wins[i as int],
                ));
                i = i + 1;
            }
            assert(wins.take(details@.len() as int) =~= wins);
            emit(events, Event::EndKyoku);
            assert(event_views(events@) =~= before + end_events(k@));
        },
        EndStatus::Ryukyoku { deltas } => {
            emit(events, Event::Ryukyoku { deltas: *deltas });
            emit(events, Event::EndKyoku);
            assert(event_views(events@) =~= before + end_events(k@));
        },
    }
}

/// Puts the events of a round behind the events that are there: its start,
/// its play in order, its end.
pub fn kyoku_to_events(k: &Kyoku, round: u32, events: &mut Vec<Event>) -> (r: Result<
    (),
    ConvertError,
>)
    ensures
        match kyoku_events(k@, round) {
            Ok(more) => r is Ok && event_views(final(events)@) == event_views(old(events)@) + more,
            Err(x) => r == Err::<(), ConvertError>(x),
        },
{
    if k.kyoku >= 16 {
        return Err(ConvertError::SchemaMismatch { part: Part::Meta, round });
    }
    let ghost before = event_views(events@);
    let start = match start_event(k, round) {
        Ok(event) => event,
        Err(x) => {
            return Err(x);
        },
    };
    emit(events, start);
    let mut state = Play::start(k);
    let ghost mut done: Seq<EventView> = Seq::empty();
    let ghost whole = play(k@, PlayView::start(k@), round);
    let lists = (
        k.dora_indicators.len(),
        k.seats[0].takes.len(),
        k.seats[1].takes.len(),
        k.seats[2].takes.len(),
        k.seats[3].takes.len(),
        k.seats[0].discards.len(),
        k.seats[1].discards.len(),
        k.seats[2].discards.len(),
        k.seats[3].discards.len(),
    );
    proof {
        assert(k@.seats[0] == k.seats@[0]@ && k@.seats[1] == k.seats@[1]@ && k@.seats[2]
            == k.seats@[2]@ && k@.seats[3] == k.seats@[3]@);
        assert(k@.wf());
        assert(state@.wf(k@));
        assert(event_views(events@) =~= before + seq![start@] + done);
        match whole {
            Ok(all) => assert(done + all =~= all),
            Err(_) => {},
        }
    }
    loop
        invariant
            state@.wf(k@),
            k.kyoku < 16,
            start_kyoku(k@, round) == Ok::<EventView, ConvertError>(start@),
            whole == play(k@, PlayView::start(k@), round),
            whole == behind(done, play(k@, state@, round)),
            event_views(events@) == before + seq![start@] + done,
        ensures
            whole == Ok::<Seq<EventView>, ConvertError>(done),
            event_views(events@) == before + seq![start@] + done,
        decreases state@.remaining(k@),
    {
        proof {
            lemma_play_unfolds(k@, state@, round);
            lemma_advance(k@, state@, round);
        }
        let ghost had = event_views(events@);
        let ghost step = advance(k@, state@, round);
        match state.advance(k, round, events) {
            Err(x) => {
                return Err(x);
            },
            Ok(true) => {
                proof {
                    let more = step.unwrap()->Next_1;
                    let was = done;
                    done = done + more;
                    assert(event_views(events@) =~= before + seq![start@] + done);
                    match play(k@, state@, round) {
                        Ok(rest) => assert(was + (more + rest) =~= done + rest),
                        Err(_) => {},
                    }
                }
            },
            Ok(false) => {
                assert(done + Seq::<EventView>::empty() =~= done);
                break ;
            },
        }
    }
    emit_end(k, events);
    assert(event_views(events@) =~= before + (seq![start@] + done + end_events(k@)));
    Ok(())
}

/// The place of a round in the log, as failures give it.
fn number_of_round(place: usize) -> (n: u32)
    ensures
        n == round_number(place as int),
{
    if place <= 0xffff_ffff {
        place as u32
    } else {
        0xffff_ffff
    }
}

/// Converts a tenhou/6 log to its events: the start of the game, the
/// events of every round in order, the end of the game. A round that fails
/// fails the whole log.
pub fn tenhou_to_mjai(log: &Log) -> (r: Result<Vec<Event>, ConvertError>)
    ensures
        match log_events(log@) {
            Ok(events) => r is Ok && event_views(r.unwrap()@) == events,
            Err(x) => r == Err::<Vec<Event>, ConvertError>(x),
        },
{
    let names = [
        log.names[0].clone(),
        log.names[1].clone(),
        log.names[2].clone(),
        log.names[3].clone(),
    ];
    assert(string_views(names@) =~= string_views(log.names@));
    let start = Event::StartGame { names, kyoku_first: log.kyoku_first, aka_flag: log.aka };
    let mut events: Vec<Event> = Vec::new();
    emit(&mut events, start);
    let ghost rounds = log@.kyokus;
    let ghost mut done: Seq<EventView> = Seq::empty();
    let mut i: usize = 0;
    assert(event_views(events@) =~= seq![start@] + done);
    while i < log.kyokus.len()
        invariant
            i <= log.kyokus@.len(),
            rounds == log@.kyokus,
            rounds.len() == log.kyokus@.len(),
            event_views(events@) == seq![start@] + done,
            rounds_events(rounds, i as int) == Ok::<Seq<EventView>, ConvertError>(done),
        decreases log.kyokus@.len() - i,
    {
        assert(rounds[i as int] == log.kyokus@[i as int]@);
        match kyoku_to_events(&log.kyokus[i], number_of_round(i), &mut events) {
            Err(x) => {
                proof {
                    lemma_rounds_fail_early(rounds, i + 1, rounds.len() as int);
                }
                return Err(x);
            },
            Ok(_) => {
                proof {
                    let more = kyoku_events(rounds[i as int], round_number(i as int)).unwrap();
                    done = done + more;
                    assert(event_views(events@) =~= seq![start@] + done);
                }
            },
        }
        i = i + 1;
    }
    emit(&mut events, Event::EndGame);
    assert(event_views(events@) =~= seq![start@] + done + seq![EventView::EndGame]);
    Ok(events)
}

/// A game fails as its first rounds fail.
pub proof fn lemma_rounds_fail_early(kyokus: Seq<KyokuView>, n: int, m: int)
    requires
        0 <= n <= m,
        rounds_events(kyokus, n) is Err,
    ensures
        rounds_events(kyokus, m) == rounds_events(kyokus, n),
    decreases m - n,
{
    if n < m {
        lemma_rounds_fail_early(kyokus, n, m - 1);
    }
}

} // verus!
