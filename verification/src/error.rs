//! The failures a conversion can end in.

use crate::text::{digits_string, digits_text};
use vstd::prelude::*;
use vstd::string::*;

verus! {

/// The elements of a record that the converter knows by name.
#[derive(Clone, Copy, Debug, PartialEq, Eq, Hash, Structural)]
pub enum Tag {
    /// `mjloggm`, the root of a record.
    Mjloggm,
    /// `GO`, the game type.
    Go,
    /// `UN`, the list of names.
    Un,
    /// `TAIKYOKU`, the start of the game.
    Taikyoku,
    /// `SHUFFLE`, the seed of the wall.
    Shuffle,
    /// `INIT`, the start of a round.
    Init,
    /// `DORA`, the reveal of a dora indicator.
    Dora,
    /// `N`, a meld.
    N,
    /// `REACH`, a reach and its acceptance.
    Reach,
    /// `AGARI`, a win.
    Agari,
    /// `RYUUKYOKU`, a drawn round.
    Ryuukyoku,
    /// `BYE`, a player who left.
    Bye,
}

/// The attributes that the converter reads.
#[derive(Clone, Copy, Debug, PartialEq, Eq, Hash, Structural)]
pub enum Attr {
    Ver,
    Type,
    N0,
    N1,
    N2,
    N3,
    Seed,
    Oya,
    Ten,
    Hai0,
    Hai1,
    Hai2,
    Hai3,
    Hai,
    Who,
    M,
    Step,
    FromWho,
    DoraHaiUra,
    Sc,
    Owari,
}

/// The parts of a tenhou/6 log.
#[derive(Clone, Copy, Debug, PartialEq, Eq, Hash, Structural)]
pub enum Part {
    /// The text as a whole: it is no JSON document, or no object.
    Document,
    /// `name`, the four names.
    Names,
    /// `rule`, the rules of the game.
    Rule,
    /// `log`, the list of the rounds, or one round as a whole.
    Log,
    /// The number of the round with its counters.
    Meta,
    /// The four scores at the start of the round.
    Scores,
    /// The dora indicators.
    Dora,
    /// The indicators under the dora indicators.
    Ura,
    /// The hand of a seat at the start of the round.
    Haipai,
    /// The tiles that a seat took: draws and calls.
    Takes,
    /// The tiles that a seat gave: discards, reaches and kans from the hand.
    Discards,
    /// The result of the round.
    Result,
}

/// Why a record could not be converted.
#[derive(Clone, Copy, Debug, PartialEq, Eq, Hash, Structural)]
pub enum ConvertError {
    /// The text is not the notation of a tile.
    InvalidTileNotation,
    /// The root element declares a version other than 2.3.
    UnsupportedVersion,
    /// The game type declares a game of three players.
    UnsupportedGameMode,
    /// An element lacks an attribute that the conversion needs.
    MissingAttribute { tag: Tag, attribute: Attr },
    /// An attribute holds text that is no value of the form it should have,
    /// or the attributes of the element cannot be read as far as it.
    MalformedValue { tag: Tag, attribute: Attr },
    /// A tenhou/6 log is not of the shape that such a log has. `round` is
    /// the place of the round in the log, counted from 0; it is 0 for what
    /// stands outside the rounds.
    SchemaMismatch { part: Part, round: u32 },
}

/// The name of an attribute as a record writes it.
pub open spec fn attr_name(attribute: Attr) -> Seq<char> {
    match attribute {
        Attr::Ver => "ver"@,
        Attr::Type => "type"@,
        Attr::N0 => "n0"@,
        Attr::N1 => "n1"@,
        Attr::N2 => "n2"@,
        Attr::N3 => "n3"@,
        Attr::Seed => "seed"@,
        Attr::Oya => "oya"@,
        Attr::Ten => "ten"@,
        Attr::Hai0 => "hai0"@,
        Attr::Hai1 => "hai1"@,
        Attr::Hai2 => "hai2"@,
        Attr::Hai3 => "hai3"@,
        Attr::Hai => "hai"@,
        Attr::Who => "who"@,
        Attr::M => "m"@,
        Attr::Step => "step"@,
        Attr::FromWho => "fromWho"@,
        Attr::DoraHaiUra => "doraHaiUra"@,
        Attr::Sc => "sc"@,
        Attr::Owari => "owari"@,
    }
}

/// The name of an element as a record writes it.
pub open spec fn tag_name(tag: Tag) -> Seq<char> {
    match tag {
        Tag::Mjloggm => "mjloggm"@,
        Tag::Go => "GO"@,
        Tag::Un => "UN"@,
        Tag::Taikyoku => "TAIKYOKU"@,
        Tag::Shuffle => "SHUFFLE"@,
        Tag::Init => "INIT"@,
        Tag::Dora => "DORA"@,
        Tag::N => "N"@,
        Tag::Reach => "REACH"@,
        Tag::Agari => "AGARI"@,
        Tag::Ryuukyoku => "RYUUKYOKU"@,
        Tag::Bye => "BYE"@,
    }
}

/// What a failure says of itself: its kind and, where an attribute is at
/// fault, the element and the attribute by name.
pub open spec fn message_of(error: ConvertError) -> Seq<char> {
    match error {
        ConvertError::InvalidTileNotation => "the text is not the notation of a tile"@,
        ConvertError::UnsupportedVersion => "only version 2.3 of mjlog is supported"@,
        ConvertError::UnsupportedGameMode => "a game of three players is not supported"@,
        ConvertError::MissingAttribute { tag, attribute } => "element "@ + tag_name(tag)
            + " has no attribute "@ + attr_name(attribute),
        ConvertError::MalformedValue { tag, attribute } => "element "@ + tag_name(tag)
            + " has a malformed attribute "@ + attr_name(attribute),
        ConvertError::SchemaMismatch { part, round } => "the log is malformed: "@ + part_name(
            part,
        ) + ", round "@ + digits_text(round as nat),
    }
}

/// The name of a part of a tenhou/6 log.
pub open spec fn part_name(part: Part) -> Seq<char> {
    match part {
        Part::Document => "document"@,
        Part::Names => "name"@,
        Part::Rule => "rule"@,
        Part::Log => "log"@,
        Part::Meta => "round number"@,
        Part::Scores => "scores"@,
        Part::Dora => "dora indicators"@,
        Part::Ura => "ura indicators"@,
        Part::Haipai => "haipai"@,
        Part::Takes => "takes"@,
        Part::Discards => "discards"@,
        Part::Result => "result"@,
    }
}

impl Part {
    /// The name of the part.
    pub fn name(self) -> (s: &'static str)
        ensures
            s@ == part_name(self),
    {
        match self {
            Part::Document => "document",
            Part::Names => "name",
            Part::Rule => "rule",
            Part::Log => "log",
            Part::Meta => "round number",
            Part::Scores => "scores",
            Part::Dora => "dora indicators",
            Part::Ura => "ura indicators",
            Part::Haipai => "haipai",
            Part::Takes => "takes",
            Part::Discards => "discards",
            Part::Result => "result",
        }
    }
}

impl Tag {
    /// The name of the element as a record writes it.
    pub fn name(self) -> (s: &'static str)
        ensures
            s@ == tag_name(self),
    {
        match self {
            Tag::Mjloggm => "mjloggm",
            Tag::Go => "GO",
            Tag::Un => "UN",
            Tag::Taikyoku => "TAIKYOKU",
            Tag::Shuffle => "SHUFFLE",
            Tag::Init => "INIT",
            Tag::Dora => "DORA",
            Tag::N => "N",
            Tag::Reach => "REACH",
            Tag::Agari => "AGARI",
            Tag::Ryuukyoku => "RYUUKYOKU",
            Tag::Bye => "BYE",
        }
    }
}

impl ConvertError {
    /// What the failure says of itself.
    pub fn message(&self) -> (s: String)
        ensures
            s@ == message_of(*self),
    {
        match *self {
            ConvertError::InvalidTileNotation => String::from_str(
                "the text is not the notation of a tile",
            ),
            ConvertError::UnsupportedVersion => String::from_str(
                "only version 2.3 of mjlog is supported",
            ),
            ConvertError::UnsupportedGameMode => String::from_str(
                "a game of three players is not supported",
            ),
            ConvertError::MissingAttribute { tag, attribute } => {
                let mut s = String::from_str("element ");
                s.append(tag.name());
                s.append(" has no attribute ");
                s.append(attribute.name());
                s
            },
            ConvertError::MalformedValue { tag, attribute } => {
                let mut s = String::from_str("element ");
                s.append(tag.name());
                s.append(" has a malformed attribute ");
                s.append(attribute.name());
                s
            },
            ConvertError::SchemaMismatch { part, round } => {
                let mut s = String::from_str("the log is malformed: ");
                s.append(part.name());
                s.append(", round ");
                let number = digits_string(round as u64);
                s.append(number.as_str());
                s
            },
        }
    }
}

impl Attr {
    /// The name of the attribute as a record writes it.
    pub fn name(self) -> (s: &'static str)
        ensures
            s@ == attr_name(self),
    {
        match self {
            Attr::Ver => "ver",
            Attr::Type => "type",
            Attr::N0 => "n0",
            Attr::N1 => "n1",
            Attr::N2 => "n2",
            Attr::N3 => "n3",
            Attr::Seed => "seed",
            Attr::Oya => "oya",
            Attr::Ten => "ten",
            Attr::Hai0 => "hai0",
            Attr::Hai1 => "hai1",
            Attr::Hai2 => "hai2",
            Attr::Hai3 => "hai3",
            Attr::Hai => "hai",
            Attr::Who => "who",
            Attr::M => "m",
            Attr::Step => "step",
            Attr::FromWho => "fromWho",
            Attr::DoraHaiUra => "doraHaiUra",
            Attr::Sc => "sc",
            Attr::Owari => "owari",
        }
    }
}

} // verus!
