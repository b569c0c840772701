//! Reading a record: the markup is read piece by piece, and each piece is
//! converted as it comes.

use crate::convert::{
    absorb, events_of, lemma_run_fails_early, run, stands_at, Conversion, ConversionView,
};
use crate::error::ConvertError;
use crate::event::{event_views, Event, EventView};
use crate::xml::{
    attribute_views, Attribute, AttributeView, Element, ElementView, XmlNode, XmlNodeView,
};
use quick_xml::encoding::Decoder;
use quick_xml::events::BytesStart;
use quick_xml::events::Event as XmlEvent;
use quick_xml::reader::Reader;
use vstd::prelude::*;

verus! {

/// The reader of `quick_xml`, here always one that reads from a text.
#[verifier::external_type_specification]
#[verifier::external_body]
#[verifier::reject_recursive_types(R)]
pub struct ExReader<R>(Reader<R>);

/// The opening tag of `quick_xml`: a name and attributes.
#[verifier::external_type_specification]
#[verifier::external_body]
pub struct ExBytesStart<'a>(BytesStart<'a>);

/// The error of `quick_xml`.
#[verifier::external_type_specification]
#[verifier::external_body]
pub struct ExXmlError(quick_xml::Error);

/// The pieces that a reader has yet to give, in order. A piece that the
/// reader fails on counts as a piece that is no element.
pub uninterp spec fn pending(reader: Reader<&[u8]>) -> Seq<XmlNodeView>;

/// The pieces of a text of markup, as a reader gives them.
pub uninterp spec fn xml_pieces(text: Seq<char>) -> Seq<XmlNodeView>;

/// The name of an opening tag.
pub uninterp spec fn start_name(e: BytesStart<'_>) -> Seq<char>;

/// The attributes of an opening tag, in the order written.
pub uninterp spec fn start_attributes(e: BytesStart<'_>) -> Seq<AttributeView>;

/// What a reader gives at one reading.
pub enum RawPiece<'a> {
    Open(BytesStart<'a>),
    Leaf(BytesStart<'a>),
    Other,
}

/// What a tag holds.
pub open spec fn start_view(e: BytesStart<'_>) -> ElementView {
    ElementView { name: start_name(e), attributes: start_attributes(e) }
}

impl<'a> View for RawPiece<'a> {
    type V = XmlNodeView;

    open spec fn view(&self) -> XmlNodeView {
        match *self {
            RawPiece::Open(e) => XmlNodeView::Open(start_view(e)),
            RawPiece::Leaf(e) => XmlNodeView::Leaf(start_view(e)),
            RawPiece::Other => XmlNodeView::Other,
        }
    }
}

/// `Reader::from_str`: a reader that will give the pieces of the text.
#[verifier::external_body]
fn open_reader<'a>(text: &'a str) -> (reader: Reader<&'a [u8]>)
    ensures
        pending(reader) == xml_pieces(text@),
{
    Reader::from_str(text)
}

/// `Reader::read_event`: the next piece, or nothing at the end of the text.
/// An opening tag and a tag that stands alone come as they are, every other
/// event as a piece that is no element. Where the reader fails, the piece
/// that it failed on is gone as well.
#[verifier::external_body]
fn read_piece<'a>(reader: &mut Reader<&'a [u8]>) -> (r: Result<Option<RawPiece<'a>>, quick_xml::Error>)
    ensures
        match r {
            Ok(None) => pending(*old(reader)).len() == 0,
            Ok(Some(piece)) => pending(*old(reader)).len() > 0 && pending(*old(reader))[0] == piece@
                && pending(*final(reader)) == pending(*old(reader)).drop_first(),
            Err(_) => pending(*old(reader)).len() > 0 && pending(*old(reader))[0]
                == XmlNodeView::Other && pending(*final(reader)) == pending(
                *old(reader),
            ).drop_first(),
        },
{
    Ok(match reader.read_event()? {
        XmlEvent::Eof => None,
        XmlEvent::Start(e) => Some(RawPiece::Open(e)),
        XmlEvent::Empty(e) => Some(RawPiece::Leaf(e)),
        _ => Some(RawPiece::Other),
    })
}

/// `BytesStart::name`: the name of the tag, as text.
#[verifier::external_body]
fn tag_name(e: &BytesStart<'_>) -> (name: String)
    ensures
        name@ == start_name(*e),
{
    String::from_utf8_lossy(e.name().as_ref()).into_owned()
}

/// `BytesStart::attributes`, without the check for keys that occur twice,
/// and `Attribute::decode_and_unescape_value` on each attribute: what the
/// tag holds, in the order written. Each item that the iterator gives
/// becomes one attribute: a key with its unescaped value, a key alone where
/// the value cannot be unescaped, and a mark where the iterator fails.
#[verifier::external_body]
fn tag_attributes(e: &BytesStart<'_>) -> (attributes: Vec<Attribute>)
    ensures
        attribute_views(attributes@) == start_attributes(*e),
{
    e.attributes().with_checks(false).map(|found| match found {
        Ok(a) => {
            let key = String::from_utf8_lossy(a.key.as_ref()).into_owned();
            match a.decode_and_unescape_value(Decoder {}) {
                Ok(value) => Attribute::Pair { key, value: value.into_owned() },
                Err(_) => Attribute::Undecodable { key },
            }
        },
        Err(_) => Attribute::Malformed,
    }).collect()
}

/// The element of a tag, as plain values.
fn element_of(e: &BytesStart<'_>) -> (element: Element)
    ensures
        element@ == start_view(*e),
{
    Element { name: tag_name(e), attributes: tag_attributes(e) }
}

/// The piece, as plain values.
fn node_of(piece: &RawPiece<'_>) -> (node: XmlNode)
    ensures
        node@ == piece@,
{
    match piece {
        RawPiece::Open(e) => XmlNode::Open(element_of(e)),
        RawPiece::Leaf(e) => XmlNode::Leaf(element_of(e)),
        RawPiece::Other => XmlNode::Other,
    }
}

/// The next piece of the markup as plain values, or nothing at its end. A
/// piece that the reader cannot read comes as a piece that is no element.
fn next_node(reader: &mut Reader<&[u8]>) -> (r: Option<XmlNode>)
    ensures
        match r {
            None => pending(*old(reader)).len() == 0,
            Some(node) => pending(*old(reader)).len() > 0 && pending(*old(reader))[0] == node@
                && pending(*final(reader)) == pending(*old(reader)).drop_first(),
        },
{
    match read_piece(reader) {
        Ok(None) => None,
        Ok(Some(piece)) => Some(node_of(&piece)),
        Err(_) => Some(XmlNode::Other),
    }
}

/// Converts an mjlog record to its events: the events of all its pieces in
/// order, or the failure of the first piece that fails. After a failure no
/// event is given. A piece that the reader cannot read gives no event, and
/// reading goes on behind it.
pub fn decode_mjlog(text: &str) -> (r: Result<Vec<Event>, ConvertError>)
    ensures
        match events_of(xml_pieces(text@)) {
            Ok(events) => r is Ok && event_views(r.unwrap()@) == events,
            Err(x) => r == Err::<Vec<Event>, ConvertError>(x),
        },
{
    let ghost all = xml_pieces(text@);
    let ghost mut n: int = 0;
    let mut reader = open_reader(text);
    let mut conversion = Conversion::new();
    let mut events: Vec<Event> = Vec::new();
    let mut failure: Option<ConvertError> = None;
    assert(event_views(events@) =~= Seq::<EventView>::empty());
    assert(all.skip(0) =~= all);
    assert(all.take(0) =~= Seq::<XmlNodeView>::empty());
    while failure.is_none()
        invariant_except_break
            pending(reader) == all.skip(n),
        invariant
            0 <= n <= all.len(),
            match failure {
                None => stands_at(conversion@, event_views(events@), all.take(n)),
                Some(x) => run(ConversionView::initial(), all) == Err::<
                    (ConversionView, Seq<EventView>),
                    ConvertError,
                >(x),
            },
        ensures
            match failure {
                None => stands_at(conversion@, event_views(events@), all),
                Some(x) => run(ConversionView::initial(), all) == Err::<
                    (ConversionView, Seq<EventView>),
                    ConvertError,
                >(x),
            },
        decreases all.len() - n,
    {
        match next_node(&mut reader) {
            None => {
                assert(all.take(n) =~= all);
                break ;
            },
            Some(node) => {
                assert(node@ == all[n]);
                assert(all.skip(n).drop_first() =~= all.skip(n + 1));
                assert(all.take(n + 1) =~= all.take(n).push(node@));
                match absorb(&mut conversion, &mut events, &node, Ghost(all.take(n))) {
                    Err(x) => {
                        proof {
                            lemma_run_fails_early(ConversionView::initial(), all, n + 1);
                        }
                        failure = Some(x);
                    },
                    Ok(_) => {},
                }
                proof {
                    n = n + 1;
                }
            },
        }
    }
    match failure {
        Some(x) => Err(x),
        None => Ok(events),
    }
}

} // verus!
