use vstd::prelude::*;

use crate::error::ParseErrorV;
use crate::error::TrsError;
use crate::parser::parse;
use crate::parser::spec_parse;
use crate::parser::ChannelV;
use crate::parser::RssChannel;
use crate::parser::XmlEvent;
use crate::parser::XmlEventV;

verus! {

/// What the XML reader tokenizes a byte stream into: the sequence of events
/// the feed parser consumes. The result depends on the bytes alone.
pub uninterp spec fn xml_events_of(bytes: Seq<u8>) -> Seq<XmlEventV>;

/// Relies on `xml::EventReader` (configured through `xml::ParserConfig` to
/// ignore invalid encoding declarations) to tokenize a byte stream; each of
/// its events is converted variant by variant, keeping only what the feed
/// parser reads: local element names, character data, and reader errors.
/// The event iterator ends after the document end or the first error.
#[verifier::external_body]
fn read_events(bytes: &[u8]) -> (r: Vec<XmlEvent>)
    ensures
        r.deep_view() == xml_events_of(bytes@),
{
    let reader = xml::ParserConfig::new().ignore_invalid_encoding_declarations(true).create_reader(bytes);
    reader.into_iter().map(|ev| match ev {
        Ok(xml::reader::XmlEvent::StartElement { name, .. }) => XmlEvent::ElementStart(name.local_name),
        Ok(xml::reader::XmlEvent::EndElement { name }) => XmlEvent::ElementEnd(name.local_name),
        Ok(xml::reader::XmlEvent::Characters(data)) => XmlEvent::Text(data),
        Ok(_) => XmlEvent::Other,
        Err(e) => XmlEvent::ReadError(e.to_string()),
    }).collect()
}

/// Parses one fetched feed document: tokenizes the bytes and runs the
/// streaming parser over the resulting events.
pub fn parse_rss_channel(bytes: &[u8]) -> (r: Result<RssChannel, TrsError>)
    ensures
        r matches Ok(c) ==> spec_parse(xml_events_of(bytes@)) == Ok::<ChannelV, ParseErrorV>(c@),
        r matches Err(e) ==> (e matches TrsError::Parse(pe) && spec_parse(xml_events_of(bytes@))
            == Err::<ChannelV, ParseErrorV>(pe@)),
{
    let events = read_events(bytes);
    match parse(&events) {
        Ok(c) => Ok(c),
        Err(e) => Err(TrsError::Parse(e)),
    }
}

} // verus!
