//! From an element tree to the document model.
//!
//! The dialect read here carries the fields of an outline node as
//! attributes of an `outline` element, the fields of the head as child
//! elements of `head`, and the version as an attribute of `opml`. An
//! attribute or child element that the model does not know is passed over.
//! A field is read from the one attribute or child of its name; a second
//! one of the same name is a failure. The fields are read in the order in
//! which the model declares them, child outlines last, and the first
//! failure is the one reported.

use crate::error::{outcome, DecodeError, Failure};
use crate::lists::{int_list_of, parse_int_list, parse_string_list, string_list_of};
use crate::model::{
    lemma_outline_view, outlines_view, Body, BodyView, Head, HeadView, Opml, OpmlView, Outline,
    OutlineView,
};
use crate::scalar::{parse_bool, parse_i32, signed_of, truth_of};
use crate::text::same_text;
use crate::tree::{attribute_of, child_of, lemma_element_view, Element, Tree};
use vstd::prelude::*;

verus! {

/// The first failure among results that are looked at one after the other.
pub struct Checked {
    pub failure: Option<Failure>,
}

impl Checked {
    /// Nothing looked at, nothing failed.
    pub open spec fn start() -> Checked {
        Checked { failure: None }
    }

    /// One more result looked at: its failure counts where none came before.
    pub open spec fn and<T>(self, next: Result<T, Failure>) -> Checked {
        match (self.failure, next) {
            (None, Err(f)) => Checked { failure: Some(f) },
            _ => self,
        }
    }
}

/// A field that must be present.
pub open spec fn required_text(found: Result<Option<Seq<char>>, Failure>, field: Seq<char>) -> Result<
    Seq<char>,
    Failure,
> {
    match found {
        Err(f) => Err(f),
        Ok(None) => Err(Failure::MissingField { field }),
        Ok(Some(value)) => Ok(value),
    }
}

/// A boolean field: `true` or `false` where it is present.
pub open spec fn optional_flag(found: Result<Option<Seq<char>>, Failure>, field: Seq<char>) -> Result<
    Option<bool>,
    Failure,
> {
    match found {
        Err(f) => Err(f),
        Ok(None) => Ok(None),
        Ok(Some(value)) => match truth_of(value) {
            Some(b) => Ok(Some(b)),
            None => Err(Failure::InvalidValue { field, value }),
        },
    }
}

/// A signed integer field.
pub open spec fn optional_number(
    found: Result<Option<Seq<char>>, Failure>,
    field: Seq<char>,
) -> Result<Option<i32>, Failure> {
    match found {
        Err(f) => Err(f),
        Ok(None) => Ok(None),
        Ok(Some(value)) => match signed_of(value) {
            Some(n) => Ok(Some(n)),
            None => Err(Failure::InvalidValue { field, value }),
        },
    }
}

/// A list of strings: empty where the field is absent.
pub open spec fn string_list(found: Result<Option<Seq<char>>, Failure>) -> Result<
    Seq<Seq<char>>,
    Failure,
> {
    match found {
        Err(f) => Err(f),
        Ok(None) => Ok(Seq::empty()),
        Ok(Some(value)) => Ok(string_list_of(value)),
    }
}

/// A list of unsigned integers: empty where the field is absent. The
/// failure holds the item that is no unsigned integer.
pub open spec fn number_list(found: Result<Option<Seq<char>>, Failure>, field: Seq<char>) -> Result<
    Seq<u32>,
    Failure,
> {
    match found {
        Err(f) => Err(f),
        Ok(None) => Ok(Seq::empty()),
        Ok(Some(value)) => match int_list_of(value) {
            Ok(numbers) => Ok(numbers),
            Err(token) => Err(Failure::InvalidValue { field, value: token }),
        },
    }
}

/// The character data of a child element.
pub open spec fn child_text(found: Result<Option<Tree>, Failure>) -> Result<
    Option<Seq<char>>,
    Failure,
> {
    match found {
        Err(f) => Err(f),
        Ok(None) => Ok(None),
        Ok(Some(child)) => Ok(Some(child.text)),
    }
}

/// The first failure among the attributes of an outline element.
pub open spec fn outline_attributes_failure(t: Tree) -> Option<Failure> {
    Checked::start()
        .and(required_text(attribute_of(t, "text"@), "text"@))
        .and(attribute_of(t, "category"@))
        .and(attribute_of(t, "created"@))
        .and(optional_flag(attribute_of(t, "isComment"@), "isComment"@))
        .and(optional_flag(attribute_of(t, "isBreakpoint"@), "isBreakpoint"@))
        .and(attribute_of(t, "description"@))
        .and(attribute_of(t, "htmlUrl"@))
        .and(attribute_of(t, "language"@))
        .and(attribute_of(t, "title"@))
        .and(attribute_of(t, "type"@))
        .and(attribute_of(t, "version"@))
        .and(attribute_of(t, "xmlUrl"@))
        .and(attribute_of(t, "url"@))
        .failure
}

/// The outline node that the attributes of an element denote, with the
/// given children, where none of the attributes fails.
pub open spec fn outline_record(t: Tree, outlines: Seq<OutlineView>) -> OutlineView {
    OutlineView {
        text: required_text(attribute_of(t, "text"@), "text"@)->Ok_0,
        category: string_list(attribute_of(t, "category"@))->Ok_0,
        created: attribute_of(t, "created"@)->Ok_0,
        is_comment: optional_flag(attribute_of(t, "isComment"@), "isComment"@)->Ok_0,
        is_breakpoint: optional_flag(attribute_of(t, "isBreakpoint"@), "isBreakpoint"@)->Ok_0,
        description: attribute_of(t, "description"@)->Ok_0,
        html_url: attribute_of(t, "htmlUrl"@)->Ok_0,
        language: attribute_of(t, "language"@)->Ok_0,
        title: attribute_of(t, "title"@)->Ok_0,
        ty: attribute_of(t, "type"@)->Ok_0,
        version: attribute_of(t, "version"@)->Ok_0,
        xml_url: attribute_of(t, "xmlUrl"@)->Ok_0,
        url: attribute_of(t, "url"@)->Ok_0,
        outlines,
    }
}

/// The outline node that an element denotes, whatever the element's name.
pub open spec fn outline_of(t: Tree) -> Result<OutlineView, Failure>
    decreases t, 1nat,
{
    let outlines = outlines_of(t.children, t.children.len());
    match (Checked { failure: outline_attributes_failure(t) }).and(outlines).failure {
        Some(f) => Err(f),
        None => Ok(outline_record(t, outlines->Ok_0)),
    }
}

/// The outline nodes that the first `n` of some child elements denote:
/// one for each child named `outline`, in order.
pub open spec fn outlines_of(children: Seq<Tree>, n: nat) -> Result<Seq<OutlineView>, Failure>
    decreases children, n,
{
    if n == 0 || n > children.len() {
        Ok(Seq::empty())
    } else {
        match outlines_of(children, (n - 1) as nat) {
            Err(f) => Err(f),
            Ok(front) => if children[n - 1].name == "outline"@ {
                match outline_of(children[n - 1]) {
                    Err(f) => Err(f),
                    Ok(outline) => Ok(front.push(outline)),
                }
            } else {
                Ok(front)
            },
        }
    }
}

/// The first failure among the fields of a head element.
pub open spec fn head_failure(t: Tree) -> Option<Failure> {
    Checked::start()
        .and(child_of(t, "title"@))
        .and(child_of(t, "dateCreated"@))
        .and(child_of(t, "dateModified"@))
        .and(child_of(t, "ownerName"@))
        .and(child_of(t, "ownerEmail"@))
        .and(number_list(child_text(child_of(t, "expansionState"@)), "expansionState"@))
        .and(optional_number(child_text(child_of(t, "vertScrollState"@)), "vertScrollState"@))
        .and(optional_number(child_text(child_of(t, "windowTop"@)), "windowTop"@))
        .and(optional_number(child_text(child_of(t, "windowLeft"@)), "windowLeft"@))
        .and(optional_number(child_text(child_of(t, "windowBottom"@)), "windowBottom"@))
        .and(optional_number(child_text(child_of(t, "windowRight"@)), "windowRight"@))
        .failure
}

/// The head that the children of an element denote, where none fails.
pub open spec fn head_record(t: Tree) -> HeadView {
    HeadView {
        title: child_text(child_of(t, "title"@))->Ok_0,
        date_created: child_text(child_of(t, "dateCreated"@))->Ok_0,
        date_modified: child_text(child_of(t, "dateModified"@))->Ok_0,
        owner_name: child_text(child_of(t, "ownerName"@))->Ok_0,
        owner_email: child_text(child_of(t, "ownerEmail"@))->Ok_0,
        expansion_state: number_list(
            child_text(child_of(t, "expansionState"@)),
            "expansionState"@,
        )->Ok_0,
        vert_scroll_state: optional_number(
            child_text(child_of(t, "vertScrollState"@)),
            "vertScrollState"@,
        )->Ok_0,
        window_top: optional_number(child_text(child_of(t, "windowTop"@)), "windowTop"@)->Ok_0,
        window_left: optional_number(
            child_text(child_of(t, "windowLeft"@)),
            "windowLeft"@,
        )->Ok_0,
        window_bottom: optional_number(
            child_text(child_of(t, "windowBottom"@)),
            "windowBottom"@,
        )->Ok_0,
        window_right: optional_number(
            child_text(child_of(t, "windowRight"@)),
            "windowRight"@,
        )->Ok_0,
    }
}

/// The head that an element denotes, whatever the element's name.
pub open spec fn head_of(t: Tree) -> Result<HeadView, Failure> {
    match head_failure(t) {
        Some(f) => Err(f),
        None => Ok(head_record(t)),
    }
}

/// The body that an element denotes, whatever the element's name.
pub open spec fn body_of(t: Tree) -> Result<BodyView, Failure> {
    match outlines_of(t.children, t.children.len()) {
        Err(f) => Err(f),
        Ok(outlines) => Ok(BodyView { outlines }),
    }
}

/// The child element `name`, which must be present.
pub open spec fn required_child(t: Tree, name: Seq<char>) -> Result<Tree, Failure> {
    match child_of(t, name) {
        Err(f) => Err(f),
        Ok(None) => Err(Failure::MissingField { field: name }),
        Ok(Some(child)) => Ok(child),
    }
}

/// The head of a document element.
pub open spec fn document_head(t: Tree) -> Result<HeadView, Failure> {
    match required_child(t, "head"@) {
        Err(f) => Err(f),
        Ok(child) => head_of(child),
    }
}

/// The body of a document element.
pub open spec fn document_body(t: Tree) -> Result<BodyView, Failure> {
    match required_child(t, "body"@) {
        Err(f) => Err(f),
        Ok(child) => body_of(child),
    }
}

/// The document that an element denotes, whatever the element's name:
/// its version, then its head, then its body.
pub open spec fn document_of(t: Tree) -> Result<OpmlView, Failure> {
    let version = required_text(attribute_of(t, "version"@), "version"@);
    match Checked::start()
        .and(version)
        .and(document_head(t))
        .and(document_body(t))
        .failure {
        Some(f) => Err(f),
        None => Ok(
            OpmlView {
                version: version->Ok_0,
                head: document_head(t)->Ok_0,
                body: document_body(t)->Ok_0,
            },
        ),
    }
}

/// What an element named `name` denotes; a failure where it has another name.
pub open spec fn named<T>(t: Tree, name: Seq<char>, value: Result<T, Failure>) -> Result<
    T,
    Failure,
> {
    if t.name == name {
        value
    } else {
        Err(Failure::UnexpectedElement { expected: name, found: t.name })
    }
}

/// Once some of the children have failed, more of them fail in the same way.
pub proof fn lemma_outlines_failure_stays(children: Seq<Tree>, k: nat, n: nat)
    requires
        k <= n <= children.len(),
        outlines_of(children, k) is Err,
    ensures
        outlines_of(children, n) == outlines_of(children, k),
    decreases n - k,
{
    if k < n {
        lemma_outlines_failure_stays(children, k, (n - 1) as nat);
    }
}

/// Reads a field that must be present.
fn read_required(found: Result<Option<&String>, DecodeError>, field: &str) -> (r: Result<
    String,
    DecodeError,
>)
    ensures
        outcome(r) == required_text(outcome(found), field@),
{
    match found {
        Err(e) => Err(e),
        Ok(None) => Err(DecodeError::missing(field)),
        Ok(Some(value)) => Ok(value.clone()),
    }
}

/// Reads a text field.
fn read_text(found: Result<Option<&String>, DecodeError>) -> (r: Result<
    Option<String>,
    DecodeError,
>)
    ensures
        outcome(r) == outcome(found),
{
    match found {
        Err(e) => Err(e),
        Ok(None) => Ok(None),
        Ok(Some(value)) => Ok(Some(value.clone())),
    }
}

/// Reads a boolean field.
fn read_flag(found: Result<Option<&String>, DecodeError>, field: &str) -> (r: Result<
    Option<bool>,
    DecodeError,
>)
    ensures
        outcome(r) == optional_flag(outcome(found), field@),
{
    match found {
        Err(e) => Err(e),
        Ok(None) => Ok(None),
        Ok(Some(value)) => match parse_bool(value.as_str()) {
            Some(b) => Ok(Some(b)),
            None => Err(DecodeError::invalid(field, value.as_str())),
        },
    }
}

/// Reads a signed integer field.
fn read_number(found: Result<Option<&String>, DecodeError>, field: &str) -> (r: Result<
    Option<i32>,
    DecodeError,
>)
    ensures
        outcome(r) == optional_number(outcome(found), field@),
{
    match found {
        Err(e) => Err(e),
        Ok(None) => Ok(None),
        Ok(Some(value)) => match parse_i32(value.as_str()) {
            Some(n) => Ok(Some(n)),
            None => Err(DecodeError::invalid(field, value.as_str())),
        },
    }
}

/// Reads a list of strings.
fn read_strings(found: Result<Option<&String>, DecodeError>) -> (r: Result<
    Vec<String>,
    DecodeError,
>)
    ensures
        outcome(r) == string_list(outcome(found)),
{
    match found {
        Err(e) => Err(e),
        Ok(None) => {
            let none: Vec<String> = Vec::new();
            assert(none.deep_view() =~= Seq::empty());
            Ok(none)
        },
        Ok(Some(value)) => Ok(parse_string_list(value.as_str())),
    }
}

/// Reads a list of unsigned integers.
fn read_numbers(found: Result<Option<&String>, DecodeError>, field: &str) -> (r: Result<
    Vec<u32>,
    DecodeError,
>)
    ensures
        outcome(r) == number_list(outcome(found), field@),
{
    match found {
        Err(e) => Err(e),
        Ok(None) => {
            let none: Vec<u32> = Vec::new();
            assert(none.deep_view() =~= Seq::empty());
            Ok(none)
        },
        Ok(Some(value)) => match parse_int_list(value.as_str()) {
            Ok(numbers) => {
                assert(numbers.deep_view() =~= numbers@);
                Ok(numbers)
            },
            Err(token) => Err(DecodeError::invalid(field, token.as_str())),
        },
    }
}

/// The character data of a child element.
fn read_child_text(found: Result<Option<&Element>, DecodeError>) -> (r: Result<
    Option<&String>,
    DecodeError,
>)
    ensures
        outcome(r) == child_text(outcome(found)),
{
    match found {
        Err(e) => Err(e),
        Ok(None) => Ok(None),
        Ok(Some(child)) => {
            proof {
                lemma_element_view(*child);
            }
            Ok(Some(&child.text))
        },
    }
}

/// Looks up a child element that must be present.
fn read_child<'a>(e: &'a Element, name: &str) -> (r: Result<&'a Element, DecodeError>)
    ensures
        outcome(r) == required_child(e@, name@),
{
    match e.child(name) {
        Err(err) => Err(err),
        Ok(None) => Err(DecodeError::missing(name)),
        Ok(Some(child)) => Ok(child),
    }
}

/// Checks that an element has the name under which it is read.
fn check_name(e: &Element, name: &str) -> (r: Result<(), DecodeError>)
    ensures
        r is Ok <==> e@.name == name@,
        r matches Err(err) ==> err@ == (Failure::UnexpectedElement {
            expected: name@,
            found: e@.name,
        }),
{
    proof {
        lemma_element_view(*e);
    }
    if same_text(e.name.as_str(), name) {
        Ok(())
    } else {
        Err(DecodeError::UnexpectedElement { expected: name.to_owned(), found: e.name.clone() })
    }
}

/// Reads an outline node from an element, whatever its name.
fn read_outline(e: &Element) -> (r: Result<Outline, DecodeError>)
    ensures
        outcome(r) == outline_of(e@),
    decreases e, 1nat,
{
    let text = match read_required(e.attribute("text"), "text") {
        Ok(v) => v,
        Err(err) => return Err(err),
    };
    let category = match read_strings(e.attribute("category")) {
        Ok(v) => v,
        Err(err) => return Err(err),
    };
    let created = match read_text(e.attribute("created")) {
        Ok(v) => v,
        Err(err) => return Err(err),
    };
    let is_comment = match read_flag(e.attribute("isComment"), "isComment") {
        Ok(v) => v,
        Err(err) => return Err(err),
    };
    let is_breakpoint = match read_flag(e.attribute("isBreakpoint"), "isBreakpoint") {
        Ok(v) => v,
        Err(err) => return Err(err),
    };
    let description = match read_text(e.attribute("description")) {
        Ok(v) => v,
        Err(err) => return Err(err),
    };
    let html_url = match read_text(e.attribute("htmlUrl")) {
        Ok(v) => v,
        Err(err) => return Err(err),
    };
    let language = match read_text(e.attribute("language")) {
        Ok(v) => v,
        Err(err) => return Err(err),
    };
    let title = match read_text(e.attribute("title")) {
        Ok(v) => v,
        Err(err) => return Err(err),
    };
    let ty = match read_text(e.attribute("type")) {
        Ok(v) => v,
        Err(err) => return Err(err),
    };
    let version = match read_text(e.attribute("version")) {
        Ok(v) => v,
        Err(err) => return Err(err),
    };
    let xml_url = match read_text(e.attribute("xmlUrl")) {
        Ok(v) => v,
        Err(err) => return Err(err),
    };
    let url = match read_text(e.attribute("url")) {
        Ok(v) => v,
        Err(err) => return Err(err),
    };
    let outlines = match read_outlines(e) {
        Ok(v) => v,
        Err(err) => return Err(err),
    };
    let outline = Outline {
        text,
        category,
        created,
        is_comment,
        is_breakpoint,
        description,
        html_url,
        language,
        title,
        ty,
        version,
        xml_url,
        url,
        outlines,
    };
    proof {
        lemma_outline_view(outline);
        assert(outline.outlines.deep_view() =~= outlines_view(outline.outlines@));
    }
    Ok(outline)
}

/// Reads the outline nodes among the children of an element.
fn read_outlines(e: &Element) -> (r: Result<Vec<Outline>, DecodeError>)
    ensures
        outcome(r) == outlines_of(e@.children, e@.children.len()),
    decreases e, 0nat,
{
    let wanted = "outline".to_owned();
    let mut outlines: Vec<Outline> = Vec::new();
    let mut i: usize = 0;
    proof {
        lemma_element_view(*e);
        assert(outlines.deep_view() =~= Seq::empty());
    }
    while i < e.children.len()
        invariant
            wanted@ == "outline"@,
            i <= e.children.len(),
            e@.children.len() == e.children.len(),
            forall|j: int| 0 <= j < e.children.len() ==> e@.children[j] == e.children[j]@,
            outlines_of(e@.children, i as nat) == Ok::<Seq<OutlineView>, Failure>(
                outlines.deep_view(),
            ),
        decreases e.children.len() - i,
    {
        let child = &e.children[i];
        proof {
            lemma_element_view(*child);
        }
        if child.name == wanted {
            match read_outline(child) {
                Ok(outline) => {
                    let ghost before = outlines.deep_view();
                    outlines.push(outline);
                    assert(outlines.deep_view() =~= before.push(outline@));
                },
                Err(err) => {
                    proof {
                        lemma_outlines_failure_stays(
                            e@.children,
                            (i + 1) as nat,
                            e@.children.len(),
                        );
                    }
                    return Err(err);
                },
            }
        }
        i += 1;
    }
    Ok(outlines)
}

/// Reads a head from an element, whatever its name.
fn read_head(e: &Element) -> (r: Result<Head, DecodeError>)
    ensures
        outcome(r) == head_of(e@),
{
    let title = match read_text(read_child_text(e.child("title"))) {
        Ok(v) => v,
        Err(err) => return Err(err),
    };
    let date_created = match read_text(read_child_text(e.child("dateCreated"))) {
        Ok(v) => v,
        Err(err) => return Err(err),
    };
    let date_modified = match read_text(read_child_text(e.child("dateModified"))) {
        Ok(v) => v,
        Err(err) => return Err(err),
    };
    let owner_name = match read_text(read_child_text(e.child("ownerName"))) {
        Ok(v) => v,
        Err(err) => return Err(err),
    };
    let owner_email = match read_text(read_child_text(e.child("ownerEmail"))) {
        Ok(v) => v,
        Err(err) => return Err(err),
    };
    let expansion_state = match read_numbers(
        read_child_text(e.child("expansionState")),
        "expansionState",
    ) {
        Ok(v) => v,
        Err(err) => return Err(err),
    };
    let vert_scroll_state = match read_number(
        read_child_text(e.child("vertScrollState")),
        "vertScrollState",
    ) {
        Ok(v) => v,
        Err(err) => return Err(err),
    };
    let window_top = match read_number(read_child_text(e.child("windowTop")), "windowTop") {
        Ok(v) => v,
        Err(err) => return Err(err),
    };
    let window_left = match read_number(read_child_text(e.child("windowLeft")), "windowLeft") {
        Ok(v) => v,
        Err(err) => return Err(err),
    };
    let window_bottom = match read_number(
        read_child_text(e.child("windowBottom")),
        "windowBottom",
    ) {
        Ok(v) => v,
        Err(err) => return Err(err),
    };
    let window_right = match read_number(read_child_text(e.child("windowRight")), "windowRight") {
        Ok(v) => v,
        Err(err) => return Err(err),
    };
    assert(expansion_state.deep_view() =~= expansion_state@);
    Ok(
        Head {
            title,
            date_created,
            date_modified,
            owner_name,
            owner_email,
            expansion_state,
            vert_scroll_state,
            window_top,
            window_left,
            window_bottom,
            window_right,
        },
    )
}

/// Reads a body from an element, whatever its name.
fn read_body(e: &Element) -> (r: Result<Body, DecodeError>)
    ensures
        outcome(r) == body_of(e@),
{
    match read_outlines(e) {
        Ok(outlines) => {
            assert(outlines.deep_view() =~= outlines_view(outlines@));
            Ok(Body { outlines })
        },
        Err(err) => Err(err),
    }
}

/// Reads a document from an element, whatever its name.
fn read_document(e: &Element) -> (r: Result<Opml, DecodeError>)
    ensures
        outcome(r) == document_of(e@),
{
    let version = match read_required(e.attribute("version"), "version") {
        Ok(v) => v,
        Err(err) => return Err(err),
    };
    let head = match read_child(e, "head") {
        Ok(child) => match read_head(child) {
            Ok(v) => v,
            Err(err) => return Err(err),
        },
        Err(err) => return Err(err),
    };
    let body = match read_child(e, "body") {
        Ok(child) => match read_body(child) {
            Ok(v) => v,
            Err(err) => return Err(err),
        },
        Err(err) => return Err(err),
    };
    Ok(Opml { version, head, body })
}

impl Outline {
    /// Reads an outline node, with the nodes below it, from an element
    /// named `outline`.
    pub fn from_element(e: &Element) -> (r: Result<Outline, DecodeError>)
        ensures
            outcome(r) == named(e@, "outline"@, outline_of(e@)),
    {
        match check_name(e, "outline") {
            Ok(()) => read_outline(e),
            Err(err) => Err(err),
        }
    }
}

impl Head {
    /// Reads a head from an element named `head`.
    pub fn from_element(e: &Element) -> (r: Result<Head, DecodeError>)
        ensures
            outcome(r) == named(e@, "head"@, head_of(e@)),
    {
        match check_name(e, "head") {
            Ok(()) => read_head(e),
            Err(err) => Err(err),
        }
    }
}

impl Body {
    /// Reads a body from an element named `body`.
    pub fn from_element(e: &Element) -> (r: Result<Body, DecodeError>)
        ensures
            outcome(r) == named(e@, "body"@, body_of(e@)),
    {
        match check_name(e, "body") {
            Ok(()) => read_body(e),
            Err(err) => Err(err),
        }
    }
}

impl Opml {
    /// Reads a document from an element named `opml`.
    pub fn from_element(e: &Element) -> (r: Result<Opml, DecodeError>)
        ensures
            outcome(r) == named(e@, "opml"@, document_of(e@)),
    {
        match check_name(e, "opml") {
            Ok(()) => read_document(e),
            Err(err) => Err(err),
        }
    }
}

} // verus!
