//! Transcodes mahjong game records into the mjai event stream.
//!
//! Two kinds of record are read: the mjlog record, which is XML, and the
//! tenhou/6 log, which is JSON. Both become the same events, one JSON object
//! to a line. The crate holds the tile model, the event model, the decoder
//! for the packed meld codes of mjlog and the two converters. Every function
//! carries a contract over the mathematical model of its data.

pub mod batch;
pub mod conv;
pub mod convert;
pub mod error;
pub mod event;
pub mod json;
pub mod laws;
pub mod meld;
pub mod mjlog;
pub mod percent;
pub mod reader;
pub mod tenhou;
pub mod text;
pub mod tile;
pub mod value;
pub mod xml;

pub use batch::{mjlog_to_lines, parse_mjlog, parse_tenhou6, tenhou6_to_lines, Outcome};
pub use conv::{decode_tenhou6, tenhou_to_mjai};
pub use convert::{decode_nodes, Conversion};
pub use error::{Attr, ConvertError, Part, Tag};
pub use event::{Event, EventView};
pub use meld::{meld_kind, parse_chi, parse_kakan, parse_kan, parse_pon, MeldKind};
pub use mjlog::translate_mjlog_tile;
pub use reader::decode_mjlog;
pub use tile::{tile_set_eq, Tile, TileView};
pub use xml::{Attribute, Element, XmlNode};
