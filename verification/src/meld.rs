//! The packed 16-bit code of a meld and the tiles it stands for.
//!
//! A tile is here the number of one physical tile: four times the face plus
//! the copy, 0 to 3. The two lowest bits of a code say from which seat,
//! counted from the caller, the called tile came; 0 is the caller itself.
//! Bit 2 marks a chi, bit 3 a pon, bit 4 a kan added to a pon; a code with
//! none of the three is a kan of four tiles.
//!
//! The decoders take every code. A code that no game produces gives tiles
//! that mean nothing, never a failure.

use vstd::prelude::*;

verus! {

/// The melds that a code can stand for.
#[derive(Clone, Copy, Debug, PartialEq, Eq, Hash, Structural)]
pub enum MeldKind {
    Chi,
    Pon,
    Kakan,
    Ankan,
    Daiminkan,
}

/// A sequence turned left by `by` places: what stood at `by` comes first.
pub open spec fn rotate_left(s: Seq<u8>, by: nat) -> Seq<u8>
    recommends
        by <= s.len(),
{
    s.subrange(by as int, s.len() as int) + s.subrange(0, by as int)
}

/// The seat of the tile's giver, counted from the caller: bits 0 and 1.
pub open spec fn meld_source(meld: u16) -> nat {
    (meld % 4) as nat
}

/// The meld that a code stands for: the lowest set bit of bits 2, 3, 4
/// decides; with none set the code is a kan, concealed when no other seat
/// gave the tile.
pub open spec fn meld_kind_of(meld: u16) -> MeldKind {
    if (meld / 4) % 2 == 1 {
        MeldKind::Chi
    } else if (meld / 8) % 2 == 1 {
        MeldKind::Pon
    } else if (meld / 16) % 2 == 1 {
        MeldKind::Kakan
    } else if meld_source(meld) == 0 {
        MeldKind::Ankan
    } else {
        MeldKind::Daiminkan
    }
}

/// The `index`-th of the three copies that are left when `out` is taken
/// from the four.
pub open spec fn copy_without(out: nat, index: nat) -> nat {
    if index < out {
        index
    } else {
        index + 1
    }
}

/// Bits 10 to 15 of a chi code: three times the run plus the place of the
/// called tile in it.
pub open spec fn chi_field(meld: u16) -> nat {
    (meld / 1024) as nat
}

/// The place in the run, 0 to 2, of the tile that was called.
pub open spec fn chi_rotation(meld: u16) -> nat {
    chi_field(meld) % 3
}

/// The lowest tile's first copy. A suit has seven runs, so the run number
/// counts seven to a suit while the faces count nine.
pub open spec fn chi_base(meld: u16) -> nat {
    let run = chi_field(meld) / 3;
    4 * (9 * (run / 7) + run % 7)
}

/// The copy used of the `index`-th tile of the run: two bits each, from bit
/// 3 on.
pub open spec fn chi_copy(meld: u16, index: nat) -> nat {
    if index == 0 {
        ((meld / 8) % 4) as nat
    } else if index == 1 {
        ((meld / 32) % 4) as nat
    } else {
        ((meld / 128) % 4) as nat
    }
}

/// The `index`-th tile of the run, lowest first.
pub open spec fn chi_tile(meld: u16, index: nat) -> u8 {
    (chi_base(meld) + 4 * index + chi_copy(meld, index)) as u8
}

/// The tiles of a chi: the run turned left so that the called tile comes
/// first.
pub open spec fn chi_meld(meld: u16) -> Seq<u8> {
    rotate_left(seq![chi_tile(meld, 0), chi_tile(meld, 1), chi_tile(meld, 2)], chi_rotation(meld))
}

/// Bits 9 to 15 of a pon code or an added kan: three times the face plus the
/// place of the called tile among the three.
pub open spec fn pon_field(meld: u16) -> nat {
    (meld / 512) as nat
}

/// The place, 0 to 2, of the tile that was called.
pub open spec fn pon_rotation(meld: u16) -> nat {
    pon_field(meld) % 3
}

/// The first copy of the pon's face.
pub open spec fn pon_base(meld: u16) -> nat {
    4 * (pon_field(meld) / 3)
}

/// Bits 5 and 6: the copy that a pon leaves out, which is the copy that an
/// added kan adds.
pub open spec fn pon_fourth(meld: u16) -> nat {
    ((meld / 32) % 4) as nat
}

/// The `index`-th tile of the pon, lowest copy first.
pub open spec fn pon_tile(meld: u16, index: nat) -> u8 {
    (pon_base(meld) + copy_without(pon_fourth(meld), index)) as u8
}

/// The tiles of a pon: its three copies turned left so that the called tile
/// comes first.
pub open spec fn pon_meld(meld: u16) -> Seq<u8> {
    rotate_left(seq![pon_tile(meld, 0), pon_tile(meld, 1), pon_tile(meld, 2)], pon_rotation(meld))
}

/// The tile that an added kan adds to the pon.
pub open spec fn kakan_added(meld: u16) -> u8 {
    (pon_base(meld) + pon_fourth(meld)) as u8
}

/// The tiles of an added kan: the pon, turned as a pon is, with the added
/// tile put in front of it where nothing was turned and behind its first
/// tile otherwise.
pub open spec fn kakan_meld(meld: u16) -> Seq<u8> {
    let pon = pon_meld(meld);
    if pon_rotation(meld) == 0 {
        seq![kakan_added(meld), pon[0], pon[1], pon[2]]
    } else {
        seq![pon[0], kakan_added(meld), pon[1], pon[2]]
    }
}

/// Bits 8 to 15 of a kan code: the tile that the code names.
pub open spec fn kan_tile(meld: u16) -> u8 {
    (meld / 256) as u8
}

/// The first copy of the face of the named tile.
pub open spec fn kan_base(meld: u16) -> u8 {
    (kan_tile(meld) - kan_tile(meld) % 4) as u8
}

/// The `index`-th companion of the named tile: of the three other copies of
/// its face, lowest first.
pub open spec fn kan_companion(meld: u16, index: nat) -> u8 {
    (kan_base(meld) + copy_without((kan_tile(meld) % 4) as nat, index)) as u8
}

/// The tiles of a kan. A concealed kan has no called tile and gives its
/// first two companions only; an open kan gives the named tile, which was
/// called, and the three companions: the four copies of one face.
pub open spec fn kan_meld(meld: u16) -> Seq<u8> {
    if meld_source(meld) == 0 {
        seq![kan_companion(meld, 0), kan_companion(meld, 1)]
    } else {
        seq![
            kan_tile(meld),
            kan_companion(meld, 0),
            kan_companion(meld, 1),
            kan_companion(meld, 2),
        ]
    }
}

/// The companions of the named tile of a kan are the three other copies of
/// its face, each once. An open kan holds the named tile first and with it
/// all four copies of the face; a concealed kan holds two of the three
/// companions.
pub proof fn lemma_kan_holds_copies(meld: u16)
    ensures
        forall|i: nat|
            i < 3 ==> (#[trigger] kan_companion(meld, i)) / 4 == kan_tile(meld) / 4
                && kan_companion(meld, i) != kan_tile(meld),
        kan_companion(meld, 0) < kan_companion(meld, 1) < kan_companion(meld, 2),
        meld_source(meld) != 0 ==> kan_meld(meld).len() == 4 && kan_meld(meld)[0] == kan_tile(meld)
            && forall|copy: nat|
            copy < 4 ==> kan_meld(meld).contains(#[trigger] ((kan_base(meld) + copy) as u8)),
        meld_source(meld) == 0 ==> kan_meld(meld).len() == 2 && kan_meld(meld)[0] == kan_companion(
            meld,
            0,
        ) && kan_meld(meld)[1] == kan_companion(meld, 1),
{
    let t = kan_tile(meld);
    let r = (t % 4) as nat;
    let base = kan_base(meld);
    assert(base % 4 == 0 && base + 3 <= 255 && base + r == t);
    assert forall|i: nat| i < 3 implies (#[trigger] kan_companion(meld, i)) / 4 == t / 4
        && kan_companion(meld, i) != t by {
        assert(copy_without(r, i) < 4 && copy_without(r, i) != r);
    }
    if meld_source(meld) != 0 {
        let m = kan_meld(meld);
        assert forall|copy: nat| copy < 4 implies m.contains(#[trigger] ((base + copy) as u8)) by {
            if copy == r {
                assert(m[0] == (base + copy) as u8);
            } else if copy < r {
                assert(copy_without(r, copy) == copy);
                assert(m[copy as int + 1] == (base + copy) as u8);
            } else {
                assert(copy_without(r, (copy - 1) as nat) == copy);
                assert(m[copy as int] == (base + copy) as u8);
            }
        }
    }
}

/// The first tile of a decoded chi is the tile that was called, wherever in
/// the run it stands.
pub proof fn lemma_chi_called_first(meld: u16)
    ensures
        chi_meld(meld).len() == 3,
        chi_meld(meld)[0] == chi_tile(meld, chi_rotation(meld)),
{
}

/// The first tile of a decoded pon is the tile that was called.
pub proof fn lemma_pon_called_first(meld: u16)
    ensures
        pon_meld(meld).len() == 3,
        pon_meld(meld)[0] == pon_tile(meld, pon_rotation(meld)),
{
}

/// A decoded chi holds the three tiles of its run, one of each rank.
pub proof fn lemma_chi_holds_run(meld: u16)
    ensures
        forall|i: nat| i < 3 ==> chi_meld(meld).contains(#[trigger] chi_tile(meld, i)),
        forall|i: nat| i < 3 ==> (#[trigger] chi_tile(meld, i)) / 4 == chi_base(meld) / 4 + i,
{
    let run = seq![chi_tile(meld, 0), chi_tile(meld, 1), chi_tile(meld, 2)];
    let r = chi_rotation(meld);
    let m = chi_meld(meld);
    assert forall|i: nat| i < 3 implies m.contains(#[trigger] chi_tile(meld, i)) by {
        let at = ((i + 3 - r) % 3) as int;
        assert(m[at] == run[i as int]);
    }
    assert(chi_base(meld) <= 108);
    assert forall|i: nat| i < 3 implies (#[trigger] chi_tile(meld, i)) / 4 == chi_base(meld) / 4
        + i by {
        assert(chi_copy(meld, i) < 4);
    }
}

/// Which meld a code stands for.
pub fn meld_kind(meld: u16) -> (kind: MeldKind)
    ensures
        kind == meld_kind_of(meld),
{
    assert((meld & 4 != 0) == ((meld / 4) % 2 == 1)) by (bit_vector);
    assert((meld & 8 != 0) == ((meld / 8) % 2 == 1)) by (bit_vector);
    assert((meld & 16 != 0) == ((meld / 16) % 2 == 1)) by (bit_vector);
    assert(meld & 3 == meld % 4) by (bit_vector);
    if meld & 4 != 0 {
        MeldKind::Chi
    } else if meld & 8 != 0 {
        MeldKind::Pon
    } else if meld & 16 != 0 {
        MeldKind::Kakan
    } else if meld & 3 == 0 {
        MeldKind::Ankan
    } else {
        MeldKind::Daiminkan
    }
}

/// Turns three tiles left by `by` places.
fn rotated(t0: u8, t1: u8, t2: u8, by: u16) -> (tiles: Vec<u8>)
    requires
        by < 3,
    ensures
        tiles@ == rotate_left(seq![t0, t1, t2], by as nat),
{
    let tiles = if by == 1 {
        vec![t1, t2, t0]
    } else if by == 2 {
        vec![t2, t0, t1]
    } else {
        vec![t0, t1, t2]
    };
    assert(tiles@ =~= rotate_left(seq![t0, t1, t2], by as nat));
    tiles
}

/// The tiles of a chi, the called tile first.
pub fn parse_chi(meld: u16) -> (tiles: Vec<u8>)
    ensures
        tiles@ == chi_meld(meld),
{
    let field: u16 = (meld & 0xfc00) >> 10;
    let c0: u16 = (meld & 0x0018) >> 3;
    let c1: u16 = (meld & 0x0060) >> 5;
    let c2: u16 = (meld & 0x0180) >> 7;
    assert(field == meld / 1024 && field < 64) by (bit_vector)
        requires
            field == (meld & 0xfc00) >> 10,
    ;
    assert(c0 == (meld / 8) % 4 && c1 == (meld / 32) % 4 && c2 == (meld / 128) % 4) by (bit_vector)
        requires
            c0 == (meld & 0x0018) >> 3,
            c1 == (meld & 0x0060) >> 5,
            c2 == (meld & 0x0180) >> 7,
    ;
    let rotation: u16 = field % 3;
    let run: u16 = field / 3;
    let base: u16 = 4 * (9 * (run / 7) + run % 7);
    let t0 = (base + c0) as u8;
    let t1 = (base + 4 + c1) as u8;
    let t2 = (base + 8 + c2) as u8;
    rotated(t0, t1, t2, rotation)
}

/// The three copies that a pon code names, lowest first.
fn pon_copies(meld: u16) -> (tiles: (u8, u8, u8))
    ensures
        tiles.0 == pon_tile(meld, 0),
        tiles.1 == pon_tile(meld, 1),
        tiles.2 == pon_tile(meld, 2),
{
    let field: u16 = (meld & 0xfe00) >> 9;
    let fourth: u16 = (meld & 0x0060) >> 5;
    assert(field == meld / 512 && field < 128) by (bit_vector)
        requires
            field == (meld & 0xfe00) >> 9,
    ;
    assert(fourth == (meld / 32) % 4) by (bit_vector)
        requires
            fourth == (meld & 0x0060) >> 5,
    ;
    let base: u16 = 4 * (field / 3);
    let t0 = if fourth == 0 {
        base + 1
    } else {
        base
    };
    let t1 = if fourth <= 1 {
        base + 2
    } else {
        base + 1
    };
    let t2 = if fourth <= 2 {
        base + 3
    } else {
        base + 2
    };
    (t0 as u8, t1 as u8, t2 as u8)
}

/// The tiles of a pon, the called tile first.
pub fn parse_pon(meld: u16) -> (tiles: Vec<u8>)
    ensures
        tiles@ == pon_meld(meld),
{
    let field: u16 = (meld & 0xfe00) >> 9;
    assert(field == meld / 512) by (bit_vector)
        requires
            field == (meld & 0xfe00) >> 9,
    ;
    let (t0, t1, t2) = pon_copies(meld);
    rotated(t0, t1, t2, field % 3)
}

/// The tiles of a kan added to a pon: the pon with the added tile in it.
pub fn parse_kakan(meld: u16) -> (tiles: Vec<u8>)
    ensures
        tiles@ == kakan_meld(meld),
{
    let field: u16 = (meld & 0xfe00) >> 9;
    let fourth: u16 = (meld & 0x0060) >> 5;
    assert(field == meld / 512 && field < 128) by (bit_vector)
        requires
            field == (meld & 0xfe00) >> 9,
    ;
    assert(fourth == (meld / 32) % 4) by (bit_vector)
        requires
            fourth == (meld & 0x0060) >> 5,
    ;
    let rotation: u16 = field % 3;
    let added = (4 * (field / 3) + fourth) as u8;
    let (t0, t1, t2) = pon_copies(meld);
    let mut tiles = rotated(t0, t1, t2, rotation);
    if rotation == 0 {
        tiles.insert(0, added);
    } else {
        tiles.insert(1, added);
    }
    assert(tiles@ =~= kakan_meld(meld));
    tiles
}

/// The tiles of a kan of four: two companions of the named tile for a
/// concealed kan, the named tile and its three companions for an open one.
pub fn parse_kan(meld: u16) -> (tiles: Vec<u8>)
    ensures
        tiles@ == kan_meld(meld),
{
    let named: u16 = (meld & 0xff00) >> 8;
    let source: u16 = meld & 0x3;
    assert(named == meld / 256 && named < 256) by (bit_vector)
        requires
            named == (meld & 0xff00) >> 8,
    ;
    assert(source == meld % 4) by (bit_vector)
        requires
            source == meld & 0x3,
    ;
    let copy: u16 = named % 4;
    let base: u16 = named - copy;
    let c0 = if copy == 0 {
        base + 1
    } else {
        base
    };
    let c1 = if copy <= 1 {
        base + 2
    } else {
        base + 1
    };
    let c2 = if copy <= 2 {
        base + 3
    } else {
        base + 2
    };
    let c0 = c0 as u8;
    let c1 = c1 as u8;
    let c2 = c2 as u8;
    let tiles = if source == 0 {
        vec![c0, c1]
    } else {
        vec![named as u8, c0, c1, c2]
    };
    assert(tiles@ =~= kan_meld(meld));
    tiles
}

} // verus!
