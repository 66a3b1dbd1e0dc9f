//! Trusted boundary to the outside crates and to the parts of std whose
//! behaviour vstd does not describe. Every item here is believed, not proved.
use vstd::prelude::*;
use markdown::mdast::Node;
use crate::position::{Point, Position};

verus! {

#[verifier::external_type_specification]
#[verifier::external_body]
pub struct ExNode(Node);

/// What `str::to_lowercase` returns on a string.
pub uninterp spec fn lower_of(s: Seq<char>) -> Seq<char>;

/// What `str::trim` returns on a string.
pub uninterp spec fn trim_of(s: Seq<char>) -> Seq<char>;

/// What `str::trim_end` returns on a string.
pub uninterp spec fn trim_end_of(s: Seq<char>) -> Seq<char>;

/// The message of the error that `semver::Version::from_str` gives on a string,
/// or `None` when the string is a valid semantic version.
pub uninterp spec fn semver_error(s: Seq<char>) -> Option<Seq<char>>;

/// The message of the error that chrono's `DateTime<Utc>::from_str` gives on a
/// string, or `None` when the string is a valid RFC 3339 timestamp.
pub uninterp spec fn timestamp_error(s: Seq<char>) -> Option<Seq<char>>;

/// The message of the error that `uriparse::URI::try_from` gives on a string
/// (the words of the underlying reference error where `URIError` has no case
/// for it), or `None` when the string is a valid URI.
pub uninterp spec fn uri_error(s: Seq<char>) -> Option<Seq<char>>;

/// What `Debug for str` writes for a string: quoted, with escapes.
pub uninterp spec fn debug_of(s: Seq<char>) -> Seq<char>;

/// The top-level block nodes that `markdown::to_mdast` gives for a text with
/// the default options (none when it reports an error).
pub uninterp spec fn mdast_blocks(text: Seq<char>) -> Seq<Node>;

/// The shape of a markdown node: its variant, with a heading's depth and a
/// definition's identifier and url.
pub uninterp spec fn shape_of(n: Node) -> NodeShape;

/// What `ToString for markdown::mdast::Node` gives for a node.
pub uninterp spec fn text_of(n: Node) -> Seq<char>;

/// What `mdast_util_to_markdown::to_markdown` gives for a node: the text, or
/// the message of its error.
pub uninterp spec fn markdown_of(n: Node) -> Result<Seq<char>, Seq<char>>;

/// What `markdown::mdast::Node::position` gives for a node.
pub uninterp spec fn position_of(n: Node) -> Option<Position>;

/// The child nodes of a list node; none for any other node.
pub uninterp spec fn list_children_of(n: Node) -> Seq<Node>;

/// Relies on `str::to_lowercase`: the result depends on the characters alone.
#[verifier::external_body]
pub fn to_lowercase(s: &str) -> (r: String)
    ensures
        r@ == lower_of(s@),
{
    s.to_lowercase()
}

/// Relies on `str::trim`: the result depends on the characters alone.
#[verifier::external_body]
pub fn trim(s: &str) -> (r: String)
    ensures
        r@ == trim_of(s@),
{
    s.trim().to_string()
}

/// Relies on `str::trim_end`: the result depends on the characters alone.
#[verifier::external_body]
pub fn trim_end(s: &str) -> (r: String)
    ensures
        r@ == trim_end_of(s@),
{
    s.trim_end().to_string()
}

/// Relies on `Debug for str`: the string quoted and escaped; the result
/// depends on the characters alone.
#[verifier::external_body]
pub fn debug_text(s: &str) -> (r: String)
    ensures
        r@ == debug_of(s@),
{
    format!("{:?}", s)
}

/// Relies on `semver::Version::from_str`: `Ok` exactly on valid versions,
/// else the error's message.
#[verifier::external_body]
pub fn check_semver(s: &str) -> (r: Result<(), String>)
    ensures
        match r {
            Ok(_) => semver_error(s@) is None,
            Err(m) => semver_error(s@) == Some(m@),
        },
{
    match s.parse::<semver::Version>() {
        Ok(_) => Ok(()),
        Err(e) => Err(e.to_string()),
    }
}

/// Relies on chrono's `DateTime<Utc>::from_str`: `Ok` exactly on valid
/// timestamps, else the error's message.
#[verifier::external_body]
pub fn check_timestamp(s: &str) -> (r: Result<(), String>)
    ensures
        match r {
            Ok(_) => timestamp_error(s@) is None,
            Err(m) => timestamp_error(s@) == Some(m@),
        },
{
    match s.parse::<chrono::DateTime<chrono::Utc>>() {
        Ok(_) => Ok(()),
        Err(e) => Err(e.to_string()),
    }
}

/// Relies on `uriparse::URIReference::try_from` and on
/// `uriparse::URI::try_from` of a reference: `Ok` exactly on valid URIs, else
/// the error's message, as `URIError` words it where it has the case. (Calling
/// `URI::try_from` on the text directly panics on a schemeless path that
/// starts with a colon segment.)
#[verifier::external_body]
pub fn check_uri(s: &str) -> (r: Result<(), String>)
    ensures
        match r {
            Ok(_) => uri_error(s@) is None,
            Err(m) => uri_error(s@) == Some(m@),
        },
{
    match uriparse::URIReference::try_from(s) {
        Ok(reference) => match uriparse::URI::try_from(reference) {
            Ok(_) => Ok(()),
            Err(e) => Err(e.to_string()),
        },
        Err(e) => {
            let words = e.to_string();
            match uriparse::URIError::try_from(e) {
                Ok(u) => Err(u.to_string()),
                Err(()) => Err(words),
            }
        },
    }
}

/// Relies on `chrono::Utc::now` and `DateTime::format`: the current UTC date
/// written as `YYYY-MM-DD`. It depends on the clock; what holds of every
/// outcome is that the date followed by midnight UTC is a valid timestamp.
#[verifier::external_body]
pub fn today_utc() -> (r: String)
    ensures
        timestamp_error(r@ + "T00:00:00Z"@) is None,
{
    chrono::Utc::now().format("%Y-%m-%d").to_string()
}

/// Relies on `markdown::to_mdast` with the default options: the top-level
/// block nodes of the document, or none when the parser reports an error.
#[verifier::external_body]
pub fn markdown_blocks(text: &str) -> (r: Vec<Node>)
    ensures
        r@ == mdast_blocks(text@),
{
    match markdown::to_mdast(text, &markdown::ParseOptions::default()) {
        Ok(Node::Root(root)) => root.children,
        _ => Vec::new(),
    }
}

/// The shape of a markdown node, with the fields the grammar reads.
pub enum NodeShape {
    Heading(u8),
    Paragraph,
    List,
    ListItem,
    Definition(String, String),
    Other,
}

/// Relies on the variants of `markdown::mdast::Node`: tells them apart and
/// copies out the heading depth and a definition's identifier and url.
#[verifier::external_body]
pub fn node_shape(node: &Node) -> (r: NodeShape)
    ensures
        r == shape_of(*node),
{
    match node {
        Node::Heading(h) => NodeShape::Heading(h.depth),
        Node::Paragraph(_) => NodeShape::Paragraph,
        Node::List(_) => NodeShape::List,
        Node::ListItem(_) => NodeShape::ListItem,
        Node::Definition(d) => NodeShape::Definition(d.identifier.clone(), d.url.clone()),
        _ => NodeShape::Other,
    }
}

/// Relies on `ToString for markdown::mdast::Node`: the node's plain text.
#[verifier::external_body]
pub fn node_text(node: &Node) -> (r: String)
    ensures
        r@ == text_of(*node),
{
    node.to_string()
}

/// Relies on `mdast_util_to_markdown::to_markdown`: the node written back as
/// markdown, or the message of the error it reports.
#[verifier::external_body]
pub fn node_markdown(node: &Node) -> (r: Result<String, String>)
    ensures
        match r {
            Ok(s) => markdown_of(*node) == Ok::<Seq<char>, Seq<char>>(s@),
            Err(m) => markdown_of(*node) == Err::<Seq<char>, Seq<char>>(m@),
        },
{
    match mdast_util_to_markdown::to_markdown(node) {
        Ok(s) => Ok(s),
        Err(m) => Err(m.to_string()),
    }
}

/// Relies on `markdown::mdast::Node::position`: the node's place in the
/// document, copied into the library's own position type.
#[verifier::external_body]
pub fn node_position(node: &Node) -> (r: Option<Position>)
    ensures
        r == position_of(*node),
{
    node.position().map(|p| Position {
        start: Point { line: p.start.line, column: p.start.column, offset: p.start.offset },
        end: Point { line: p.end.line, column: p.end.column, offset: p.end.offset },
    })
}

/// Relies on the fields of `markdown::mdast::Node::List`: the list's child
/// nodes, none for any other node.
#[verifier::external_body]
pub fn list_children(node: &Node) -> (r: Vec<Node>)
    ensures
        r@ == list_children_of(*node),
{
    match node {
        Node::List(list) => list.children.clone(),
        _ => Vec::new(),
    }
}

} // verus!
