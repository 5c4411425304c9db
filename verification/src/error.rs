use vstd::prelude::*;

verus! {

/// Spec-level image of a `ParseError`: the same shape over character
/// sequences, so that contracts can speak about error payloads.
pub enum ParseErrorV {
    UnexpectedStartTag { tag: Seq<char>, open_field: Seq<char> },
    UnclosedFieldInItem { open_field: Seq<char> },
    MismatchedEndTag { tag: Seq<char>, expected: Seq<char> },
    FieldOutsideItem { field_tag: Seq<char> },
    InvalidDate { text: Seq<char> },
    Reader { message: Seq<char> },
    MissingChannelFields,
}

/// Why a feed document was rejected.
///
/// The structural variants mirror the parser's single-pass state machine: a
/// field tag opened while another field was still accumulating, an `</item>`
/// reached with a field left open, an end tag that does not match the open
/// field, and an article field seen with no article to receive it. The
/// remaining variants cover an unparseable publication date, an error from
/// the underlying XML reader, and a document whose channel-level `title`,
/// `link` or `description` came out empty.
#[derive(Debug, Clone, PartialEq)]
pub enum ParseError {
    UnexpectedStartTag { tag: String, open_field: String },
    UnclosedFieldInItem { open_field: String },
    MismatchedEndTag { tag: String, expected: String },
    FieldOutsideItem { field_tag: String },
    InvalidDate { text: String },
    Reader { message: String },
    MissingChannelFields,
}

impl View for ParseError {
    type V = ParseErrorV;

    open spec fn view(&self) -> ParseErrorV {
        match self {
            ParseError::UnexpectedStartTag { tag, open_field } => ParseErrorV::UnexpectedStartTag {
                tag: tag@,
                open_field: open_field@,
            },
            ParseError::UnclosedFieldInItem { open_field } => ParseErrorV::UnclosedFieldInItem {
                open_field: open_field@,
            },
            ParseError::MismatchedEndTag { tag, expected } => ParseErrorV::MismatchedEndTag {
                tag: tag@,
                expected: expected@,
            },
            ParseError::FieldOutsideItem { field_tag } => ParseErrorV::FieldOutsideItem {
                field_tag: field_tag@,
            },
            ParseError::InvalidDate { text } => ParseErrorV::InvalidDate { text: text@ },
            ParseError::Reader { message } => ParseErrorV::Reader { message: message@ },
            ParseError::MissingChannelFields => ParseErrorV::MissingChannelFields,
        }
    }
}

/// The text `ParseError::message` renders for each failure.
pub open spec fn spec_parse_error_message(e: ParseErrorV) -> Seq<char> {
    match e {
        ParseErrorV::UnexpectedStartTag { tag, open_field } => "Unexpected <"@ + tag
            + "> start tag without closing existing tag <"@ + open_field + ">"@,
        ParseErrorV::UnclosedFieldInItem { open_field } => {
            "Unexpected </item> end tag without closing field "@ + open_field
        },
        ParseErrorV::MismatchedEndTag { tag, expected } => "Unexpected </"@ + tag
            + "> end tag, expected </"@ + expected + ">"@,
        ParseErrorV::FieldOutsideItem { field_tag } => "No item found to update field <"@
            + field_tag + ">"@,
        ParseErrorV::InvalidDate { text } => "Failed to parse date '"@ + text + "'"@,
        ParseErrorV::Reader { message } => "Unexpected XML parsing error: "@ + message,
        ParseErrorV::MissingChannelFields => "This is not a valid RSS feed"@,
    }
}

impl ParseError {
    /// A human-readable account of the failure.
    pub fn message(&self) -> (r: String)
        ensures
            r@ == spec_parse_error_message(self@),
    {
        match self {
            ParseError::UnexpectedStartTag { tag, open_field } => {
                let mut m = String::from_str("Unexpected <");
                m.append(tag.as_str());
                m.append("> start tag without closing existing tag <");
                m.append(open_field.as_str());
                m.append(">");
                m
            },
            ParseError::UnclosedFieldInItem { open_field } => {
                let mut m = String::from_str("Unexpected </item> end tag without closing field ");
                m.append(open_field.as_str());
                m
            },
            ParseError::MismatchedEndTag { tag, expected } => {
                let mut m = String::from_str("Unexpected </");
                m.append(tag.as_str());
                m.append("> end tag, expected </");
                m.append(expected.as_str());
                m.append(">");
                m
            },
            ParseError::FieldOutsideItem { field_tag } => {
                let mut m = String::from_str("No item found to update field <");
                m.append(field_tag.as_str());
                m.append(">");
                m
            },
            ParseError::InvalidDate { text } => {
                let mut m = String::from_str("Failed to parse date '");
                m.append(text.as_str());
                m.append("'");
                m
            },
            ParseError::Reader { message } => {
                let mut m = String::from_str("Unexpected XML parsing error: ");
                m.append(message.as_str());
                m
            },
            ParseError::MissingChannelFields => {
                String::from_str("This is not a valid RSS feed")
            },
        }
    }
}

/// The library's error taxonomy: general/validation errors, feed parse
/// failures, business-level "not found" on an id that no row carries, and
/// the two collaborator categories (network fetch, storage) that the
/// surrounding shell maps its own failures into.
#[derive(Debug, Clone, PartialEq)]
pub enum TrsError {
    Error(String),
    Parse(ParseError),
    NotFound(String),
    Network(String),
    Storage(String),
}

/// The text `TrsError::message` renders: the category prefix, then the
/// contextual message.
pub open spec fn spec_trs_error_message(e: TrsError) -> Seq<char> {
    match e {
        TrsError::Error(msg) => msg@,
        TrsError::Parse(p) => "Parse error: "@ + spec_parse_error_message(p@),
        TrsError::NotFound(msg) => "Not found: "@ + msg@,
        TrsError::Network(msg) => "Network error: "@ + msg@,
        TrsError::Storage(msg) => "Storage error: "@ + msg@,
    }
}

impl TrsError {
    /// A human-readable account of the failure.
    pub fn message(&self) -> (r: String)
        ensures
            r@ == spec_trs_error_message(*self),
    {
        match self {
            TrsError::Error(msg) => msg.clone(),
            TrsError::Parse(e) => {
                let mut m = String::from_str("Parse error: ");
                let inner = e.message();
                m.append(inner.as_str());
                m
            },
            TrsError::NotFound(msg) => {
                let mut m = String::from_str("Not found: ");
                m.append(msg.as_str());
                m
            },
            TrsError::Network(msg) => {
                let mut m = String::from_str("Network error: ");
                m.append(msg.as_str());
                m
            },
            TrsError::Storage(msg) => {
                let mut m = String::from_str("Storage error: ");
                m.append(msg.as_str());
                m
            },
        }
    }
}

} // verus!
