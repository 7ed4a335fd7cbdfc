//! The codec: from XML text to the document model and back.
//!
//! Decoding reads the text as one XML element, nests it into an element
//! tree and maps the tree to the model. Encoding maps the model to an
//! element tree and writes the tree as text. Any failure ends a decode;
//! encoding does not fail.

use crate::decode::{body_of, document_of, head_of, named, outline_of};
use crate::encode::{body_tree, document_tree, head_tree, outline_tree};
use crate::error::{outcome, DecodeError, Failure};
use crate::laws::law_document_depth;
use crate::model::{
    outlines_depth, Body, BodyView, Head, HeadView, Opml, OpmlView, Outline, OutlineView,
};
use crate::parse::{parse, tree_of_text};
use crate::render::{render, rendered};
use vstd::prelude::*;

verus! {

/// How many elements may be open at once where no other limit is given.
pub const DEFAULT_MAX_DEPTH: usize = 128;

/// The document that a text denotes.
pub open spec fn document_of_text(text: Seq<char>, max_depth: usize) -> Result<OpmlView, Failure> {
    match tree_of_text(text, max_depth) {
        Err(f) => Err(f),
        Ok(t) => named(t, "opml"@, document_of(t)),
    }
}

/// The head that a text denotes.
pub open spec fn head_of_text(text: Seq<char>, max_depth: usize) -> Result<HeadView, Failure> {
    match tree_of_text(text, max_depth) {
        Err(f) => Err(f),
        Ok(t) => named(t, "head"@, head_of(t)),
    }
}

/// The body that a text denotes.
pub open spec fn body_of_text(text: Seq<char>, max_depth: usize) -> Result<BodyView, Failure> {
    match tree_of_text(text, max_depth) {
        Err(f) => Err(f),
        Ok(t) => named(t, "body"@, body_of(t)),
    }
}

/// The outline node that a text denotes.
pub open spec fn outline_of_text(text: Seq<char>, max_depth: usize) -> Result<
    OutlineView,
    Failure,
> {
    match tree_of_text(text, max_depth) {
        Err(f) => Err(f),
        Ok(t) => named(t, "outline"@, outline_of(t)),
    }
}

/// Decodes a document from XML text whose outermost element is `opml`.
/// Elements may be nested up to `DEFAULT_MAX_DEPTH` deep, outline nodes
/// two less.
pub fn decode(text: &str) -> (r: Result<Opml, DecodeError>)
    ensures
        outcome(r) == document_of_text(text@, DEFAULT_MAX_DEPTH),
        r matches Ok(document) ==> outlines_depth(
            document@.body.outlines,
            document@.body.outlines.len(),
        ) + 2 <= DEFAULT_MAX_DEPTH,
{
    decode_within(text, DEFAULT_MAX_DEPTH)
}

/// Decodes a document from XML text in which at most `max_depth` elements
/// are open at once. A text that nests elements more deeply gives
/// `DecodeError::DepthExceeded`, whatever else it holds.
pub fn decode_within(text: &str, max_depth: usize) -> (r: Result<Opml, DecodeError>)
    ensures
        outcome(r) == document_of_text(text@, max_depth),
        r matches Ok(document) ==> outlines_depth(
            document@.body.outlines,
            document@.body.outlines.len(),
        ) + 2 <= max_depth,
{
    match parse(text, max_depth) {
        Ok(element) => {
            proof {
                if document_of(element@) is Ok {
                    law_document_depth(element@);
                }
            }
            Opml::from_element(&element)
        },
        Err(e) => Err(e),
    }
}

/// Encodes a document as XML text.
pub fn encode(document: &Opml) -> (s: String)
    ensures
        s@ == rendered(document_tree(document@)),
{
    render(&document.to_element())
}

impl Opml {
    /// Decodes a document from XML text whose outermost element is `opml`.
    pub fn from_xml(text: &str) -> (r: Result<Opml, DecodeError>)
        ensures
            outcome(r) == document_of_text(text@, DEFAULT_MAX_DEPTH),
            r matches Ok(document) ==> outlines_depth(
                document@.body.outlines,
                document@.body.outlines.len(),
            ) + 2 <= DEFAULT_MAX_DEPTH,
    {
        decode_within(text, DEFAULT_MAX_DEPTH)
    }

    /// Encodes this document as XML text.
    pub fn to_xml(&self) -> (s: String)
        ensures
            s@ == rendered(document_tree(self@)),
    {
        render(&self.to_element())
    }
}

impl Head {
    /// Decodes a head from XML text whose outermost element is `head`.
    pub fn from_xml(text: &str) -> (r: Result<Head, DecodeError>)
        ensures
            outcome(r) == head_of_text(text@, DEFAULT_MAX_DEPTH),
    {
        match parse(text, DEFAULT_MAX_DEPTH) {
            Ok(element) => Head::from_element(&element),
            Err(e) => Err(e),
        }
    }

    /// Encodes this head as XML text.
    pub fn to_xml(&self) -> (s: String)
        ensures
            s@ == rendered(head_tree(self@)),
    {
        render(&self.to_element())
    }
}

impl Body {
    /// Decodes a body from XML text whose outermost element is `body`.
    pub fn from_xml(text: &str) -> (r: Result<Body, DecodeError>)
        ensures
            outcome(r) == body_of_text(text@, DEFAULT_MAX_DEPTH),
    {
        match parse(text, DEFAULT_MAX_DEPTH) {
            Ok(element) => Body::from_element(&element),
            Err(e) => Err(e),
        }
    }

    /// Encodes this body as XML text.
    pub fn to_xml(&self) -> (s: String)
        ensures
            s@ == rendered(body_tree(self@)),
    {
        render(&self.to_element())
    }
}

impl Outline {
    /// Decodes an outline node, with the nodes below it, from XML text
    /// whose outermost element is `outline`.
    pub fn from_xml(text: &str) -> (r: Result<Outline, DecodeError>)
        ensures
            outcome(r) == outline_of_text(text@, DEFAULT_MAX_DEPTH),
    {
        match parse(text, DEFAULT_MAX_DEPTH) {
            Ok(element) => Outline::from_element(&element),
            Err(e) => Err(e),
        }
    }

    /// Encodes this node, with the nodes below it, as XML text.
    pub fn to_xml(&self) -> (s: String)
        ensures
            s@ == rendered(outline_tree(self@)),
    {
        render(&self.to_element())
    }
}

} // verus!
