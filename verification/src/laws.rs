//! What holds of every conversion.

use crate::convert::{
    discard_step, draw_step, element_kind, events_of, lemma_run_fails_early,
    lemma_run_push, lemma_step_wf, meld_event, reach_step, run, step, ConversionView, ElementKind,
};
use crate::error::{ConvertError, Tag};
use crate::event::EventView;
use crate::meld::{kan_companion, kan_meld, kan_tile, meld_kind_of, MeldKind};
use crate::mjlog::{meld_ids, meld_tiles, reach_of, version_of};
use crate::tile::{is_five, lemma_canonical_id_injective, mjlog_tile, TileView};
use crate::xml::XmlNodeView;
use vstd::prelude::*;

verus! {

/// How many of the tiles are red.
pub open spec fn red_count(tiles: Seq<TileView>) -> nat
    decreases tiles.len(),
{
    if tiles.len() == 0 {
        0
    } else {
        red_count(tiles.drop_last()) + if tiles.last().red {
            1nat
        } else {
            0nat
        }
    }
}

/// The event of a concealed kan holds four tiles of the face of the tile
/// that the code names, whichever copy it names.
pub proof fn lemma_ankan_one_face(meld: u16, actor: u8, target: u8, aka: bool)
    requires
        meld_kind_of(meld) == MeldKind::Ankan,
        kan_tile(meld) < 140,
    ensures
        meld_tiles(meld, aka) is Some,
        meld_event(MeldKind::Ankan, actor, target, meld_tiles(meld, aka).unwrap(), aka)
            matches EventView::Ankan { consumed, .. } && consumed.len() == 4 && forall|i: int|
            0 <= i < 4 ==> (#[trigger] consumed[i]).kind == kan_tile(meld) / 4,
{
    let ids = meld_ids(meld);
    assert(ids == kan_meld(meld));
    let c0 = kan_companion(meld, 0);
    let c1 = kan_companion(meld, 1);
    assert(ids.len() == 2 && ids[0] == c0 && ids[1] == c1);
    assert(c0 / 4 == kan_tile(meld) / 4 && c1 / 4 == kan_tile(meld) / 4);
    let found = ids.map_values(|id: u8| mjlog_tile(id, aka));
    assert(found[0] == mjlog_tile(c0, aka));
    assert(found[1] == mjlog_tile(c1, aka));
    assert forall|i: int| 0 <= i < found.len() implies (#[trigger] found[i]) is Some by {
        if i == 0 {
        } else {
            assert(i == 1);
        }
    }
    let tiles = meld_tiles(meld, aka).unwrap();
    assert(tiles[0] == mjlog_tile(c0, aka).unwrap());
    assert(tiles[1] == mjlog_tile(c1, aka).unwrap());
}

/// Under the red-five rule the event of a concealed kan of fives holds
/// exactly one red tile among its four, whichever copy of the five the code
/// names.
pub proof fn lemma_ankan_one_red(meld: u16, actor: u8, target: u8)
    requires
        meld_kind_of(meld) == MeldKind::Ankan,
        is_five((kan_tile(meld) / 4) as nat),
    ensures
        meld_tiles(meld, true) is Some,
        meld_event(MeldKind::Ankan, actor, target, meld_tiles(meld, true).unwrap(), true)
            matches EventView::Ankan { consumed, .. } && consumed.len() == 4 && red_count(consumed)
            == 1,
{
    let ids = meld_ids(meld);
    assert(ids == kan_meld(meld));
    assert(ids.len() == 2);
    let c0 = kan_companion(meld, 0);
    let c1 = kan_companion(meld, 1);
    assert(ids[0] == c0 && ids[1] == c1);
    let found = ids.map_values(|id: u8| mjlog_tile(id, true));
    assert(found[0] == mjlog_tile(c0, true));
    assert(found[1] == mjlog_tile(c1, true));
    assert(c0 < 140 && c1 < 140);
    assert forall|i: int| 0 <= i < found.len() implies (#[trigger] found[i]) is Some by {
        if i == 0 {
        } else {
            assert(i == 1);
        }
    }
    let tiles = meld_tiles(meld, true).unwrap();
    assert(tiles[0] == mjlog_tile(c0, true).unwrap());
    assert(tiles[1] == mjlog_tile(c1, true).unwrap());
    assert(!tiles[1].red);
    assert(is_five(tiles[0].kind));
    let event = meld_event(MeldKind::Ankan, actor, target, tiles, true);
    let consumed = event->Ankan_consumed;
    assert(consumed.len() == 4);
    let three = consumed.drop_last();
    let two = three.drop_last();
    let one = two.drop_last();
    reveal_with_fuel(red_count, 2);
    assert(one.drop_last().len() == 0);
    assert(one.last() == tiles[1] && two.last() == tiles[1] && three.last() == tiles[1]);
    assert(red_count(one) == 0);
    assert(red_count(two) == 0);
    assert(red_count(three) == 0);
    assert(consumed.last().red);
}

/// Whether a piece is the acceptance of a reach: a reach element of step 2.
pub open spec fn is_acceptance(node: XmlNodeView) -> bool {
    &&& node matches XmlNodeView::Leaf(e)
    &&& element_kind(e.name) == ElementKind::Named(Tag::Reach)
    &&& reach_of(e) matches Ok((_, step))
    &&& step == 2
}

/// The smaller of two numbers.
pub open spec fn smaller(a: int, b: int) -> int {
    if a <= b {
        a
    } else {
        b
    }
}

/// Of acceptances that follow one another, as many give an event as bring
/// the count of the round to four, and no more: the first ones. The count
/// never passes four.
pub proof fn lemma_reach_accepted_at_most_four(st: ConversionView, nodes: Seq<XmlNodeView>)
    requires
        st.wf(),
        forall|i: int| 0 <= i < nodes.len() ==> is_acceptance(#[trigger] nodes[i]),
    ensures
        run(st, nodes) matches Ok((next, events)) && events.len() == smaller(
            nodes.len() as int,
            4 - st.reach_accepted,
        ) && next.reach_accepted == st.reach_accepted + events.len() && next.wf() && (forall|
            i: int,
        |
            0 <= i < events.len() ==> (#[trigger] events[i]) is ReachAccepted),
    decreases nodes.len(),
{
    if nodes.len() > 0 {
        let front = nodes.drop_last();
        assert forall|i: int| 0 <= i < front.len() implies is_acceptance(#[trigger] front[i]) by {
            assert(front[i] == nodes[i]);
        }
        lemma_reach_accepted_at_most_four(st, front);
        assert(is_acceptance(nodes[nodes.len() - 1]));
        let (mid, events) = run(st, front).unwrap();
        let e = nodes.last()->Leaf_0;
        assert(step(mid, nodes.last()) == reach_step(mid, e));
    }
}

/// Two acceptances that follow one another give exactly one event where
/// three reaches were accepted in the round before them: the first is the
/// fourth of the round, and the second is passed over.
pub proof fn lemma_two_acceptances_give_one(st: ConversionView, first: XmlNodeView, second: XmlNodeView)
    requires
        st.wf(),
        st.reach_accepted == 3,
        is_acceptance(first),
        is_acceptance(second),
    ensures
        run(st, seq![first, second]) matches Ok((next, events)) && events.len() == 1 && events[0]
            is ReachAccepted && next.reach_accepted == 4,
{
    lemma_reach_accepted_at_most_four(st, seq![first, second]);
}

/// The fifth acceptance of a round gives no event and changes nothing.
pub proof fn lemma_fifth_acceptance_gives_nothing(st: ConversionView, node: XmlNodeView)
    requires
        st.wf(),
        st.reach_accepted == 4,
        is_acceptance(node),
    ensures
        step(st, node) == Ok::<(ConversionView, Seq<EventView>), ConvertError>((st, seq![])),
{
}

/// A discard right behind a draw of the same seat is marked as the thrown
/// draw where it is the tile that was drawn, and only there.
pub proof fn lemma_tsumogiri(st: ConversionView, seat: u8, drawn: u8, discarded: u8)
    requires
        st.wf(),
        seat < 4,
        drawn < 140,
        discarded < 140,
    ensures
        draw_step(st, seat, drawn) matches Ok((mid, _)) && discard_step(mid, seat, discarded)
            == Ok::<(ConversionView, Seq<EventView>), ConvertError>(
            (
                mid,
                seq![
                    EventView::Dahai {
                        actor: seat,
                        pai: mjlog_tile(discarded, st.aka).unwrap(),
                        tsumogiri: mjlog_tile(discarded, st.aka) == mjlog_tile(drawn, st.aka),
                    },
                ],
            ),
        ),
        drawn == discarded ==> mjlog_tile(discarded, st.aka) == mjlog_tile(drawn, st.aka),
{
    let a = mjlog_tile(drawn, st.aka).unwrap();
    let b = mjlog_tile(discarded, st.aka).unwrap();
    if a.canonical_id() == b.canonical_id() {
        lemma_canonical_id_injective(a, b);
    }
}

/// Whether a piece is a root that declares another version than 2.3.
pub open spec fn declares_other_version(node: XmlNodeView) -> bool {
    &&& node matches XmlNodeView::Open(e)
    &&& e.name == "mjloggm"@
    &&& version_of(e) matches Ok(version)
    &&& version != "2.3"@
}

/// A record whose root declares another version than 2.3 fails for its
/// version, whatever follows the root, and so gives no event.
pub proof fn lemma_version_gate(nodes: Seq<XmlNodeView>, at: int)
    requires
        0 <= at < nodes.len(),
        run(ConversionView::initial(), nodes.take(at)) matches Ok((st, _)) && !st.version_checked,
        declares_other_version(nodes[at]),
    ensures
        events_of(nodes) == Err::<Seq<EventView>, ConvertError>(ConvertError::UnsupportedVersion),
{
    let front = nodes.take(at);
    lemma_run_push(ConversionView::initial(), front, nodes[at]);
    assert(nodes.take(at + 1) =~= front.push(nodes[at]));
    lemma_run_fails_early(ConversionView::initial(), nodes, at + 1);
}

/// The pieces of a record keep the state well formed.
pub proof fn lemma_run_wf(st: ConversionView, nodes: Seq<XmlNodeView>)
    requires
        st.wf(),
        run(st, nodes) is Ok,
    ensures
        run(st, nodes).unwrap().0.wf(),
    decreases nodes.len(),
{
    if nodes.len() > 0 {
        lemma_run_wf(st, nodes.drop_last());
        lemma_step_wf(run(st, nodes.drop_last()).unwrap().0, nodes.last());
    }
}

} // verus!
