//! The tiles of the game and their textual notation.
//!
//! A tile is one of 34 faces or the unknown tile, the back of a tile that is
//! not shown. A five of characters, circles or bamboos may be the red one.

use crate::error::ConvertError;
use vstd::multiset::*;
use vstd::prelude::*;
use vstd::seq_lib::*;
use vstd::string::*;

verus! {

/// The number of faces. The face with this number is the unknown tile.
pub const UNKNOWN_KIND: u8 = 34;

/// The canonical id of the unknown tile.
pub const UNKNOWN_ID: u8 = 37;

/// What a tile is: its face and whether it is a red five.
///
/// Faces 0 to 8 are the characters 1 to 9, 9 to 17 the circles, 18 to 26 the
/// bamboos, 27 to 30 the winds east, south, west, north, 31 to 33 the dragons
/// white, green, red, and 34 is the unknown tile.
pub struct TileView {
    pub kind: nat,
    pub red: bool,
}

/// The faces that are fives of a suit.
pub open spec fn is_five(kind: nat) -> bool {
    kind == 4 || kind == 13 || kind == 22
}

/// The digit that stands for a rank, counted from 0.
pub open spec fn rank_char(rank: nat) -> char {
    if rank == 0 {
        '1'
    } else if rank == 1 {
        '2'
    } else if rank == 2 {
        '3'
    } else if rank == 3 {
        '4'
    } else if rank == 4 {
        '5'
    } else if rank == 5 {
        '6'
    } else if rank == 6 {
        '7'
    } else if rank == 7 {
        '8'
    } else {
        '9'
    }
}

/// The letter that stands for a suit: characters, circles, bamboos.
pub open spec fn suit_char(suit: nat) -> char {
    if suit == 0 {
        'm'
    } else if suit == 1 {
        'p'
    } else {
        's'
    }
}

/// The letter that stands for a wind or a dragon, or the mark of the unknown
/// tile, for the faces from 27 on.
pub open spec fn honor_char(kind: nat) -> char {
    if kind == 27 {
        'E'
    } else if kind == 28 {
        'S'
    } else if kind == 29 {
        'W'
    } else if kind == 30 {
        'N'
    } else if kind == 31 {
        'P'
    } else if kind == 32 {
        'F'
    } else if kind == 33 {
        'C'
    } else {
        '?'
    }
}

/// The rank that a digit stands for, counted from 0.
pub open spec fn rank_of_char(c: char) -> Option<nat> {
    if c == '1' {
        Some(0)
    } else if c == '2' {
        Some(1)
    } else if c == '3' {
        Some(2)
    } else if c == '4' {
        Some(3)
    } else if c == '5' {
        Some(4)
    } else if c == '6' {
        Some(5)
    } else if c == '7' {
        Some(6)
    } else if c == '8' {
        Some(7)
    } else if c == '9' {
        Some(8)
    } else {
        None
    }
}

/// The suit that a letter stands for.
pub open spec fn suit_of_char(c: char) -> Option<nat> {
    if c == 'm' {
        Some(0)
    } else if c == 'p' {
        Some(1)
    } else if c == 's' {
        Some(2)
    } else {
        None
    }
}

/// The face from 27 on that a single letter or mark stands for.
pub open spec fn honor_of_char(c: char) -> Option<nat> {
    if c == 'E' {
        Some(27)
    } else if c == 'S' {
        Some(28)
    } else if c == 'W' {
        Some(29)
    } else if c == 'N' {
        Some(30)
    } else if c == 'P' {
        Some(31)
    } else if c == 'F' {
        Some(32)
    } else if c == 'C' {
        Some(33)
    } else if c == '?' {
        Some(34)
    } else {
        None
    }
}

impl TileView {
    /// The tiles that exist: a face up to 34, red only on a five.
    pub open spec fn wf(self) -> bool {
        self.kind <= 34 && (self.red ==> is_five(self.kind))
    }

    /// The unknown tile.
    pub open spec fn unknown() -> TileView {
        TileView { kind: 34, red: false }
    }

    /// The id of the tile: its face for a plain tile, 34 to 36 for the red
    /// fives by suit, 37 for the unknown tile.
    pub open spec fn canonical_id(self) -> nat {
        if self.red {
            34 + self.kind / 9
        } else if self.kind == 34 {
            37
        } else {
            self.kind
        }
    }

    /// The notation of the tile: rank and suit letter of a suited tile,
    /// with `r` behind a red five; one letter for a wind or a dragon; `?`
    /// for the unknown tile.
    pub open spec fn notation(self) -> Seq<char> {
        if self.kind < 27 {
            let plain = seq![rank_char(self.kind % 9), suit_char(self.kind / 9)];
            if self.red {
                plain.push('r')
            } else {
                plain
            }
        } else {
            seq![honor_char(self.kind)]
        }
    }

    /// The same face as a red tile.
    pub open spec fn reddened(self) -> TileView {
        TileView { kind: self.kind, red: true }
    }
}

/// The tile that a text denotes, if it is a notation.
pub open spec fn parse_notation(s: Seq<char>) -> Option<TileView> {
    if s.len() == 1 {
        match honor_of_char(s[0]) {
            Some(kind) => Some(TileView { kind, red: false }),
            None => None,
        }
    } else if s.len() == 2 || s.len() == 3 {
        match (rank_of_char(s[0]), suit_of_char(s[1])) {
            (Some(rank), Some(suit)) => {
                if s.len() == 2 {
                    Some(TileView { kind: suit * 9 + rank, red: false })
                } else if s[2] == 'r' && rank == 4 {
                    Some(TileView { kind: suit * 9 + rank, red: true })
                } else {
                    None
                }
            },
            _ => None,
        }
    } else {
        None
    }
}

/// The tile of a physical tile number of a record: four copies to a face,
/// the four numbers behind the last face the unknown tile. With the red-five
/// rule the first copy of each five is the red five.
pub open spec fn mjlog_tile(id: u8, aka: bool) -> Option<TileView> {
    if id >= 140 {
        None
    } else {
        let kind = (id / 4) as nat;
        Some(TileView { kind, red: aka && is_five(kind) && id % 4 == 0 })
    }
}

/// The tile of a tile number of a tenhou/6 log: the tens give the suit, 1
/// for characters, 2 for circles, 3 for bamboos, and the units the rank; 41
/// to 47 are the winds and the dragons; 51, 52 and 53 are the red fives.
pub open spec fn tenhou_tile(id: int) -> Option<TileView> {
    if 11 <= id <= 19 {
        Some(TileView { kind: (id - 11) as nat, red: false })
    } else if 21 <= id <= 29 {
        Some(TileView { kind: (id - 12) as nat, red: false })
    } else if 31 <= id <= 39 {
        Some(TileView { kind: (id - 13) as nat, red: false })
    } else if 41 <= id <= 47 {
        Some(TileView { kind: (id - 14) as nat, red: false })
    } else if 51 <= id <= 53 {
        Some(TileView { kind: ((id - 51) * 9 + 4) as nat, red: true })
    } else {
        None
    }
}

/// The tile of a physical tile number exists.
pub proof fn lemma_mjlog_tile_wf(id: u8, aka: bool)
    requires
        id < 140,
    ensures
        mjlog_tile(id, aka).unwrap().wf(),
{
}

/// Under the red-five rule exactly one of the four copies of each five is
/// red, the first; without the rule none is; and no other tile is ever
/// red.
pub proof fn lemma_one_red_copy(id: u8, aka: bool)
    requires
        id < 140,
    ensures
        mjlog_tile(id, aka).unwrap().red <==> aka && is_five((id / 4) as nat) && id % 4 == 0,
        mjlog_tile(id, aka).unwrap().kind == id / 4,
{
}

/// Every tile is read back from its own notation.
pub proof fn lemma_parse_of_notation(t: TileView)
    requires
        t.wf(),
    ensures
        parse_notation(t.notation()) == Some(t),
{
    if t.kind < 27 {
        let rank = t.kind % 9;
        let suit = t.kind / 9;
        assert(rank_of_char(rank_char(rank)) == Some(rank));
        assert(suit_of_char(suit_char(suit)) == Some(suit));
        assert(suit * 9 + rank == t.kind);
    } else {
        assert(honor_of_char(honor_char(t.kind)) == Some(t.kind));
    }
}

/// A notation denotes an existing tile, and that tile is written as the
/// notation itself.
pub proof fn lemma_notation_of_parse(s: Seq<char>)
    requires
        parse_notation(s) is Some,
    ensures
        parse_notation(s).unwrap().wf(),
        parse_notation(s).unwrap().notation() == s,
{
    let t = parse_notation(s).unwrap();
    if s.len() == 1 {
        assert(honor_char(t.kind) == s[0]);
        assert(t.notation() =~= s);
    } else {
        let rank = rank_of_char(s[0]).unwrap();
        let suit = suit_of_char(s[1]).unwrap();
        assert(t.kind == suit * 9 + rank);
        assert(t.kind % 9 == rank && t.kind / 9 == suit);
        assert(rank_char(rank) == s[0]);
        assert(suit_char(suit) == s[1]);
        assert(t.notation() =~= s);
    }
}

/// Reading a notation, writing the tile and reading it again gives the tile
/// of the first reading.
pub proof fn lemma_notation_round_trip(s: Seq<char>)
    requires
        parse_notation(s) is Some,
    ensures
        parse_notation(parse_notation(s).unwrap().notation()) == parse_notation(s),
{
    lemma_notation_of_parse(s);
}

/// Two tiles with one id are one tile.
pub proof fn lemma_canonical_id_injective(a: TileView, b: TileView)
    requires
        a.wf(),
        b.wf(),
        a.canonical_id() == b.canonical_id(),
    ensures
        a == b,
{
}

/// One of the tiles of the game.
#[derive(Clone, Copy, Debug, PartialEq, Eq, Hash)]
pub struct Tile {
    kind: u8,
    red: bool,
}

impl View for Tile {
    type V = TileView;

    closed spec fn view(&self) -> TileView {
        TileView { kind: self.kind as nat, red: self.red }
    }
}

impl DeepView for Tile {
    type V = TileView;

    open spec fn deep_view(&self) -> TileView {
        self@
    }
}

impl Tile {
    #[verifier::type_invariant]
    spec fn inv(self) -> bool {
        self@.wf()
    }

    /// The unknown tile.
    pub fn unknown() -> (t: Tile)
        ensures
            t@ == TileView::unknown(),
    {
        Tile { kind: UNKNOWN_KIND, red: false }
    }

    /// The plain tile of a face.
    pub(crate) fn plain(kind: u8) -> (t: Tile)
        requires
            kind <= 34,
        ensures
            t@ == (TileView { kind: kind as nat, red: false }),
    {
        Tile { kind, red: false }
    }

    /// The tile of a physical tile number of a record, which is four times
    /// the face plus the copy. Under the red-five rule the first copy of a
    /// five is the red one. Numbers from 140 on are no tiles.
    pub fn from_mjlog_id(id: u8, aka: bool) -> (r: Option<Tile>)
        ensures
            r.deep_view() == mjlog_tile(id, aka),
    {
        if id >= 140 {
            None
        } else {
            let kind = id / 4;
            let five = kind == 4 || kind == 13 || kind == 22;
            Some(Tile { kind, red: aka && five && id % 4 == 0 })
        }
    }

    /// The tile of a tile number of a tenhou/6 log.
    pub fn from_tenhou_id(id: i64) -> (r: Option<Tile>)
        ensures
            r.deep_view() == tenhou_tile(id as int),
    {
        if 11 <= id && id <= 19 {
            Some(Tile { kind: (id - 11) as u8, red: false })
        } else if 21 <= id && id <= 29 {
            Some(Tile { kind: (id - 12) as u8, red: false })
        } else if 31 <= id && id <= 39 {
            Some(Tile { kind: (id - 13) as u8, red: false })
        } else if 41 <= id && id <= 47 {
            Some(Tile { kind: (id - 14) as u8, red: false })
        } else if 51 <= id && id <= 53 {
            Some(Tile { kind: ((id - 51) * 9 + 4) as u8, red: true })
        } else {
            None
        }
    }

    /// Reads a tile from its notation. Any other text is refused.
    pub fn parse(s: &str) -> (r: Result<Tile, ConvertError>)
        ensures
            match parse_notation(s@) {
                Some(v) => r is Ok && r.unwrap()@ == v,
                None => r == Err::<Tile, ConvertError>(ConvertError::InvalidTileNotation),
            },
    {
        let n = s.unicode_len();
        if n == 1 {
            match honor_of(s.get_char(0)) {
                Some(kind) => Ok(Tile { kind, red: false }),
                None => Err(ConvertError::InvalidTileNotation),
            }
        } else if n == 2 || n == 3 {
            match (rank_of(s.get_char(0)), suit_of(s.get_char(1))) {
                (Some(rank), Some(suit)) => {
                    if n == 2 {
                        Ok(Tile { kind: suit * 9 + rank, red: false })
                    } else if s.get_char(2) == 'r' && rank == 4 {
                        Ok(Tile { kind: suit * 9 + rank, red: true })
                    } else {
                        Err(ConvertError::InvalidTileNotation)
                    }
                },
                _ => Err(ConvertError::InvalidTileNotation),
            }
        } else {
            Err(ConvertError::InvalidTileNotation)
        }
    }

    /// Writes the tile in its notation.
    pub fn to_notation(&self) -> (s: String)
        ensures
            s@ == self@.notation(),
    {
        proof {
            use_type_invariant(self);
        }
        if self.kind < 27 {
            let mut s = String::from_str(rank_text(self.kind % 9));
            s.append(suit_text(self.kind / 9));
            if self.red {
                proof {
                    reveal_strlit("r");
                }
                s.append("r");
            }
            assert(s@ =~= self@.notation());
            s
        } else {
            String::from_str(honor_text(self.kind))
        }
    }

    /// The id of the tile.
    pub fn to_canonical_id(&self) -> (id: u8)
        ensures
            id == self@.canonical_id(),
            id <= 37,
    {
        proof {
            use_type_invariant(self);
        }
        if self.red {
            34 + self.kind / 9
        } else if self.kind == UNKNOWN_KIND {
            UNKNOWN_ID
        } else {
            self.kind
        }
    }

    /// Whether two tiles are the same tile.
    pub fn same(&self, other: &Tile) -> (b: bool)
        ensures
            b == (self@ == other@),
    {
        self.kind == other.kind && self.red == other.red
    }

    /// Whether the tile is a five of a suit, red or plain.
    pub fn is_five(&self) -> (b: bool)
        ensures
            b == is_five(self@.kind),
    {
        self.kind == 4 || self.kind == 13 || self.kind == 22
    }

    /// Whether the tile is a red five.
    pub fn is_red(&self) -> (b: bool)
        ensures
            b == self@.red,
    {
        self.red
    }

    /// The red five of the suit of a five.
    pub fn make_red(&self) -> (t: Tile)
        requires
            is_five(self@.kind),
        ensures
            t@ == self@.reddened(),
    {
        Tile { kind: self.kind, red: true }
    }
}

impl Default for Tile {
    /// The unknown tile.
    fn default() -> (t: Tile)
        ensures
            t@ == TileView::unknown(),
    {
        Tile::unknown()
    }
}

fn rank_of(c: char) -> (r: Option<u8>)
    ensures
        match rank_of_char(c) {
            Some(k) => r == Some(k as u8) && k < 9,
            None => r is None,
        },
{
    if c == '1' {
        Some(0)
    } else if c == '2' {
        Some(1)
    } else if c == '3' {
        Some(2)
    } else if c == '4' {
        Some(3)
    } else if c == '5' {
        Some(4)
    } else if c == '6' {
        Some(5)
    } else if c == '7' {
        Some(6)
    } else if c == '8' {
        Some(7)
    } else if c == '9' {
        Some(8)
    } else {
        None
    }
}

fn suit_of(c: char) -> (r: Option<u8>)
    ensures
        match suit_of_char(c) {
            Some(k) => r == Some(k as u8) && k < 3,
            None => r is None,
        },
{
    if c == 'm' {
        Some(0)
    } else if c == 'p' {
        Some(1)
    } else if c == 's' {
        Some(2)
    } else {
        None
    }
}

fn honor_of(c: char) -> (r: Option<u8>)
    ensures
        match honor_of_char(c) {
            Some(k) => r == Some(k as u8) && 27 <= k <= 34,
            None => r is None,
        },
{
    if c == 'E' {
        Some(27)
    } else if c == 'S' {
        Some(28)
    } else if c == 'W' {
        Some(29)
    } else if c == 'N' {
        Some(30)
    } else if c == 'P' {
        Some(31)
    } else if c == 'F' {
        Some(32)
    } else if c == 'C' {
        Some(33)
    } else if c == '?' {
        Some(34)
    } else {
        None
    }
}

fn rank_text(rank: u8) -> (s: &'static str)
    requires
        rank < 9,
    ensures
        s@ == seq![rank_char(rank as nat)],
{
    proof {
        reveal_strlit("1");
        reveal_strlit("2");
        reveal_strlit("3");
        reveal_strlit("4");
        reveal_strlit("5");
        reveal_strlit("6");
        reveal_strlit("7");
        reveal_strlit("8");
        reveal_strlit("9");
    }
    let s = if rank == 0 {
        "1"
    } else if rank == 1 {
        "2"
    } else if rank == 2 {
        "3"
    } else if rank == 3 {
        "4"
    } else if rank == 4 {
        "5"
    } else if rank == 5 {
        "6"
    } else if rank == 6 {
        "7"
    } else if rank == 7 {
        "8"
    } else {
        "9"
    };
    assert(s@ =~= seq![rank_char(rank as nat)]);
    s
}

fn suit_text(suit: u8) -> (s: &'static str)
    requires
        suit < 3,
    ensures
        s@ == seq![suit_char(suit as nat)],
{
    proof {
        reveal_strlit("m");
        reveal_strlit("p");
        reveal_strlit("s");
    }
    let s = if suit == 0 {
        "m"
    } else if suit == 1 {
        "p"
    } else {
        "s"
    };
    assert(s@ =~= seq![suit_char(suit as nat)]);
    s
}

fn honor_text(kind: u8) -> (s: &'static str)
    requires
        27 <= kind <= 34,
    ensures
        s@ == seq![honor_char(kind as nat)],
{
    proof {
        reveal_strlit("E");
        reveal_strlit("S");
        reveal_strlit("W");
        reveal_strlit("N");
        reveal_strlit("P");
        reveal_strlit("F");
        reveal_strlit("C");
        reveal_strlit("?");
    }
    let s = if kind == 27 {
        "E"
    } else if kind == 28 {
        "S"
    } else if kind == 29 {
        "W"
    } else if kind == 30 {
        "N"
    } else if kind == 31 {
        "P"
    } else if kind == 32 {
        "F"
    } else if kind == 33 {
        "C"
    } else {
        "?"
    };
    assert(s@ =~= seq![honor_char(kind as nat)]);
    s
}

/// The tile of an id up to 37.
pub open spec fn view_of_id(id: nat) -> TileView {
    if id < 34 {
        TileView { kind: id, red: false }
    } else if id < 37 {
        TileView { kind: (4 + 9 * (id - 34)) as nat, red: true }
    } else {
        TileView::unknown()
    }
}

/// What a sequence of tiles holds, tile by tile.
pub open spec fn tile_views(s: Seq<Tile>) -> Seq<TileView> {
    s.map_values(|t: Tile| t@)
}

/// Whether two sequences hold the same tiles equally often, in whatever
/// order.
pub open spec fn same_tiles(a: Seq<TileView>, b: Seq<TileView>) -> bool {
    a.to_multiset() =~= b.to_multiset()
}

/// The order of the tiles does not matter to `same_tiles`: a sequence holds
/// the same tiles as itself with two of its tiles exchanged.
pub proof fn lemma_same_tiles_swap(a: Seq<TileView>, i: int, j: int)
    requires
        0 <= i < a.len(),
        0 <= j < a.len(),
    ensures
        same_tiles(a, a.update(i, a[j]).update(j, a[i])),
{
    broadcast use group_to_multiset_ensures;

    let b = a.update(i, a[j]).update(j, a[i]);
    if i != j {
        lemma_update_to_multiset(a, i, a[j]);
        lemma_update_to_multiset(a.update(i, a[j]), j, a[i]);
        assert(b.to_multiset() =~= a.to_multiset());
    } else {
        assert(b =~= a);
    }
}

/// Replacing one element takes its old value out of the multiset and puts
/// the new one in.
proof fn lemma_update_to_multiset(a: Seq<TileView>, i: int, v: TileView)
    requires
        0 <= i < a.len(),
    ensures
        a.update(i, v).to_multiset() =~= a.to_multiset().remove(a[i]).insert(v),
{
    broadcast use group_to_multiset_ensures;

    let b = a.update(i, v);
    assert(b.remove(i) =~= a.remove(i));
    assert(b.remove(i).to_multiset() =~= b.to_multiset().remove(v));
    assert(a.remove(i).to_multiset() =~= a.to_multiset().remove(a[i]));
    assert(b.to_multiset().count(v) > 0) by {
        assert(b[i] == v);
        assert(b.contains(v));
    }
    assert(b.to_multiset() =~= b.to_multiset().remove(v).insert(v));
}

/// `same_tiles` compares two sequences alike, whichever is given first, and
/// a sequence that holds the same tiles as one of them compares as that one
/// does.
pub proof fn lemma_same_tiles_equivalence(a: Seq<TileView>, b: Seq<TileView>, c: Seq<TileView>)
    ensures
        same_tiles(a, a),
        same_tiles(a, b) == same_tiles(b, a),
        same_tiles(a, b) ==> same_tiles(a, c) == same_tiles(b, c),
{
}

fn count_tiles(s: &[Tile], id: u8) -> (n: usize)
    requires
        id <= 37,
    ensures
        n == tile_views(s@).to_multiset().count(view_of_id(id as nat)),
        forall|j: int| 0 <= j < s@.len() ==> (#[trigger] s@[j])@.wf(),
{
    broadcast use group_to_multiset_ensures;

    let mut n: usize = 0;
    let mut i: usize = 0;
    assert(tile_views(s@.take(0)) =~= Seq::<TileView>::empty());
    while i < s.len()
        invariant
            i <= s.len(),
            id <= 37,
            n <= i,
            n == tile_views(s@.take(i as int)).to_multiset().count(view_of_id(id as nat)),
            forall|j: int| 0 <= j < i ==> (#[trigger] s@[j])@.wf(),
        decreases s.len() - i,
    {
        let t = s[i];
        proof {
            use_type_invariant(&t);
            assert(tile_views(s@.take(i + 1)) =~= tile_views(s@.take(i as int)).push(t@));
            let v = view_of_id(id as nat);
            assert(v.wf() && v.canonical_id() == id);
            if t@.canonical_id() == id {
                lemma_canonical_id_injective(t@, v);
            }
            let before = tile_views(s@.take(i as int));
            to_multiset_build(before, t@);
        }
        if t.to_canonical_id() == id {
            n = n + 1;
        }
        i = i + 1;
    }
    assert(s@.take(s@.len() as int) =~= s@);
    n
}

/// Whether two sequences of tiles hold the same tiles equally often, in
/// whatever order. A red five and the plain five of its suit are two tiles.
pub fn tile_set_eq(a: &[Tile], b: &[Tile]) -> (r: bool)
    ensures
        r == same_tiles(tile_views(a@), tile_views(b@)),
{
    broadcast use group_to_multiset_ensures;

    let ghost ma = tile_views(a@).to_multiset();
    let ghost mb = tile_views(b@).to_multiset();
    if count_tiles(a, 0) != count_tiles(b, 0) {
        return false;
    }
    let mut id: u8 = 1;
    while id <= 37
        invariant
            1 <= id <= 38,
            ma == tile_views(a@).to_multiset(),
            mb == tile_views(b@).to_multiset(),
            forall|k: nat| k < id ==> ma.count(#[trigger] view_of_id(k)) == mb.count(view_of_id(k)),
            forall|j: int| 0 <= j < a@.len() ==> (#[trigger] a@[j])@.wf(),
            forall|j: int| 0 <= j < b@.len() ==> (#[trigger] b@[j])@.wf(),
        decreases 38 - id,
    {
        if count_tiles(a, id) != count_tiles(b, id) {
            return false;
        }
        id = id + 1;
    }
    proof {
        assert forall|v: TileView| ma.count(v) == mb.count(v) by {
            if v.wf() {
                assert(v == view_of_id(v.canonical_id()));
            } else {
                assert(!tile_views(a@).contains(v));
                assert(!tile_views(b@).contains(v));
            }
        }
    }
    true
}

} // verus!
