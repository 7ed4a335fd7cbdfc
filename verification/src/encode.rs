//! From the document model to an element tree.
//!
//! A field that is absent gives no attribute and no child element; so does
//! a list that is empty. The fields that are present stand in the order in
//! which the model declares them, child outlines in their stored order.

use crate::lists::{format_int_list, format_string_list, int_list_text, string_list_text};
use crate::model::{
    lemma_outline_view, outlines_view, Body, BodyView, Head, HeadView, Opml, OpmlView, Outline,
    OutlineView,
};
use crate::scalar::{format_bool, format_i32, signed_decimal, truth_text};
use crate::tree::{
    attributes_view, elements_view, lemma_element_view, Attribute, Element, Tree,
};
use vstd::prelude::*;

verus! {

/// The attribute that carries a field, where the field is present.
pub open spec fn optional_attribute(name: Seq<char>, value: Option<Seq<char>>) -> Seq<
    (Seq<char>, Seq<char>),
> {
    match value {
        Some(v) => seq![(name, v)],
        None => Seq::empty(),
    }
}

/// An element that holds character data and nothing else.
pub open spec fn text_element(name: Seq<char>, text: Seq<char>) -> Tree {
    Tree { name, attributes: Seq::empty(), text, children: Seq::empty() }
}

/// The child element that carries a field, where the field is present.
pub open spec fn optional_child(name: Seq<char>, value: Option<Seq<char>>) -> Seq<Tree> {
    match value {
        Some(v) => seq![text_element(name, v)],
        None => Seq::empty(),
    }
}

/// The text of a boolean field.
pub open spec fn flag_text(value: Option<bool>) -> Option<Seq<char>> {
    match value {
        Some(b) => Some(truth_text(b)),
        None => None,
    }
}

/// The text of a signed integer field.
pub open spec fn number_text(value: Option<i32>) -> Option<Seq<char>> {
    match value {
        Some(n) => Some(signed_decimal(n as int)),
        None => None,
    }
}

/// The text of a list of strings; nothing for the empty list.
pub open spec fn strings_text(value: Seq<Seq<char>>) -> Option<Seq<char>> {
    if value.len() == 0 {
        None
    } else {
        Some(string_list_text(value))
    }
}

/// The text of a list of unsigned integers; nothing for the empty list.
pub open spec fn numbers_text(value: Seq<u32>) -> Option<Seq<char>> {
    if value.len() == 0 {
        None
    } else {
        Some(int_list_text(value))
    }
}

/// The attributes of the element that stands for an outline node.
pub open spec fn outline_attributes(o: OutlineView) -> Seq<(Seq<char>, Seq<char>)> {
    seq![("text"@, o.text)] + optional_attribute("category"@, strings_text(o.category))
        + optional_attribute("created"@, o.created) + optional_attribute(
        "isComment"@,
        flag_text(o.is_comment),
    ) + optional_attribute("isBreakpoint"@, flag_text(o.is_breakpoint)) + optional_attribute(
        "description"@,
        o.description,
    ) + optional_attribute("htmlUrl"@, o.html_url) + optional_attribute("language"@, o.language)
        + optional_attribute("title"@, o.title) + optional_attribute("type"@, o.ty)
        + optional_attribute("version"@, o.version) + optional_attribute("xmlUrl"@, o.xml_url)
        + optional_attribute("url"@, o.url)
}

/// The element that stands for an outline node and the nodes below it.
pub open spec fn outline_tree(o: OutlineView) -> Tree
    decreases o,
{
    Tree {
        name: "outline"@,
        attributes: outline_attributes(o),
        text: Seq::empty(),
        children: Seq::new(
            o.outlines.len(),
            |i: int|
                if 0 <= i < o.outlines.len() {
                    outline_tree(o.outlines[i])
                } else {
                    arbitrary()
                },
        ),
    }
}

/// The elements that stand for a list of outline nodes.
pub open spec fn outline_trees(outlines: Seq<OutlineView>) -> Seq<Tree> {
    Seq::new(outlines.len(), |i: int| outline_tree(outlines[i]))
}

/// The child elements of the element that stands for a head.
pub open spec fn head_children(h: HeadView) -> Seq<Tree> {
    optional_child("title"@, h.title) + optional_child("dateCreated"@, h.date_created)
        + optional_child("dateModified"@, h.date_modified) + optional_child(
        "ownerName"@,
        h.owner_name,
    ) + optional_child("ownerEmail"@, h.owner_email) + optional_child(
        "expansionState"@,
        numbers_text(h.expansion_state),
    ) + optional_child("vertScrollState"@, number_text(h.vert_scroll_state)) + optional_child(
        "windowTop"@,
        number_text(h.window_top),
    ) + optional_child("windowLeft"@, number_text(h.window_left)) + optional_child(
        "windowBottom"@,
        number_text(h.window_bottom),
    ) + optional_child("windowRight"@, number_text(h.window_right))
}

/// The element that stands for a head.
pub open spec fn head_tree(h: HeadView) -> Tree {
    Tree {
        name: "head"@,
        attributes: Seq::empty(),
        text: Seq::empty(),
        children: head_children(h),
    }
}

/// The element that stands for a body.
pub open spec fn body_tree(b: BodyView) -> Tree {
    Tree {
        name: "body"@,
        attributes: Seq::empty(),
        text: Seq::empty(),
        children: outline_trees(b.outlines),
    }
}

/// The element that stands for a document.
pub open spec fn document_tree(d: OpmlView) -> Tree {
    Tree {
        name: "opml"@,
        attributes: seq![("version"@, d.version)],
        text: Seq::empty(),
        children: seq![head_tree(d.head), body_tree(d.body)],
    }
}

/// The element of an outline node is made of its attributes and of the
/// elements of the nodes below it.
pub proof fn lemma_outline_tree(o: OutlineView)
    ensures
        outline_tree(o).name == "outline"@,
        outline_tree(o).attributes == outline_attributes(o),
        outline_tree(o).text == Seq::<char>::empty(),
        outline_tree(o).children == outline_trees(o.outlines),
{
    assert forall|i: int| 0 <= i < o.outlines.len() implies outline_tree(o).children[i]
        == outline_tree(o.outlines[i]) by {
        reveal_with_fuel(outline_tree, 2);
    }
}

/// Adds an attribute.
fn push_attribute(attributes: &mut Vec<Attribute>, name: &str, value: String)
    ensures
        attributes_view(final(attributes)@) == attributes_view(old(attributes)@).push(
            (name@, value@),
        ),
{
    attributes.push(Attribute { name: name.to_owned(), value });
}

/// Adds the attribute of a field, where the field is present.
fn push_optional(attributes: &mut Vec<Attribute>, name: &str, value: Option<String>)
    ensures
        attributes_view(final(attributes)@) == attributes_view(old(attributes)@)
            + optional_attribute(name@, value.deep_view()),
{
    match value {
        Some(v) => push_attribute(attributes, name, v),
        None => {},
    }
}

/// Adds the child element of a field, where the field is present.
fn push_child(children: &mut Vec<Element>, name: &str, value: Option<String>)
    ensures
        elements_view(final(children)@) == elements_view(old(children)@) + optional_child(
            name@,
            value.deep_view(),
        ),
{
    match value {
        Some(v) => {
            let child = Element {
                name: name.to_owned(),
                attributes: Vec::new(),
                text: v,
                children: Vec::new(),
            };
            proof {
                lemma_element_view(child);
                assert(child@.attributes =~= Seq::empty());
                assert(child@.children =~= Seq::empty());
            }
            children.push(child);
        },
        None => {},
    }
}

/// The text of a text field.
fn copy_text(value: &Option<String>) -> (r: Option<String>)
    ensures
        r.deep_view() == value.deep_view(),
{
    match value {
        Some(v) => Some(v.clone()),
        None => None,
    }
}

/// The text of a boolean field.
fn write_flag(value: Option<bool>) -> (r: Option<String>)
    ensures
        r.deep_view() == flag_text(value),
{
    match value {
        Some(b) => Some(format_bool(b).to_owned()),
        None => None,
    }
}

/// The text of a signed integer field.
fn write_number(value: Option<i32>) -> (r: Option<String>)
    ensures
        r.deep_view() == number_text(value),
{
    match value {
        Some(n) => Some(format_i32(n)),
        None => None,
    }
}

/// The text of a list of strings; nothing for the empty list.
fn write_strings(value: &Vec<String>) -> (r: Option<String>)
    ensures
        r.deep_view() == strings_text(value.deep_view()),
{
    if value.len() == 0 {
        None
    } else {
        let items = value.as_slice();
        Some(format_string_list(items))
    }
}

/// The text of a list of unsigned integers; nothing for the empty list.
fn write_numbers(value: &Vec<u32>) -> (r: Option<String>)
    ensures
        r.deep_view() == numbers_text(value@),
{
    if value.len() == 0 {
        None
    } else {
        Some(format_int_list(value.as_slice()))
    }
}

/// The elements that stand for a list of outline nodes.
fn write_outlines(outlines: &Vec<Outline>) -> (children: Vec<Element>)
    ensures
        elements_view(children@) == outline_trees(outlines_view(outlines@)),
    decreases outlines,
{
    let mut children: Vec<Element> = Vec::new();
    let mut i: usize = 0;
    while i < outlines.len()
        invariant
            i <= outlines.len(),
            children.len() == i,
            forall|j: int| 0 <= j < i ==> children[j]@ == outline_tree(outlines[j]@),
        decreases outlines.len() - i,
    {
        let child = outlines[i].to_element();
        children.push(child);
        i += 1;
    }
    children
}

impl Outline {
    /// The element that stands for this node and the nodes below it.
    pub fn to_element(&self) -> (e: Element)
        ensures
            e@ == outline_tree(self@),
        decreases self,
    {
        proof {
            lemma_outline_view(*self);
            lemma_outline_tree(self@);
        }
        let mut attributes: Vec<Attribute> = Vec::new();
        assert(attributes_view(attributes@) =~= Seq::empty());
        push_attribute(&mut attributes, "text", self.text.clone());
        push_optional(&mut attributes, "category", write_strings(&self.category));
        push_optional(&mut attributes, "created", copy_text(&self.created));
        push_optional(&mut attributes, "isComment", write_flag(self.is_comment));
        push_optional(&mut attributes, "isBreakpoint", write_flag(self.is_breakpoint));
        push_optional(&mut attributes, "description", copy_text(&self.description));
        push_optional(&mut attributes, "htmlUrl", copy_text(&self.html_url));
        push_optional(&mut attributes, "language", copy_text(&self.language));
        push_optional(&mut attributes, "title", copy_text(&self.title));
        push_optional(&mut attributes, "type", copy_text(&self.ty));
        push_optional(&mut attributes, "version", copy_text(&self.version));
        push_optional(&mut attributes, "xmlUrl", copy_text(&self.xml_url));
        push_optional(&mut attributes, "url", copy_text(&self.url));
        let children = write_outlines(&self.outlines);
        let e = Element {
            name: "outline".to_owned(),
            attributes,
            text: String::new(),
            children,
        };
        proof {
            lemma_element_view(e);
        }
        e
    }
}

impl Head {
    /// The element that stands for this head.
    pub fn to_element(&self) -> (e: Element)
        ensures
            e@ == head_tree(self@),
    {
        let mut children: Vec<Element> = Vec::new();
        push_child(&mut children, "title", copy_text(&self.title));
        push_child(&mut children, "dateCreated", copy_text(&self.date_created));
        push_child(&mut children, "dateModified", copy_text(&self.date_modified));
        push_child(&mut children, "ownerName", copy_text(&self.owner_name));
        push_child(&mut children, "ownerEmail", copy_text(&self.owner_email));
        push_child(&mut children, "expansionState", write_numbers(&self.expansion_state));
        push_child(&mut children, "vertScrollState", write_number(self.vert_scroll_state));
        push_child(&mut children, "windowTop", write_number(self.window_top));
        push_child(&mut children, "windowLeft", write_number(self.window_left));
        push_child(&mut children, "windowBottom", write_number(self.window_bottom));
        push_child(&mut children, "windowRight", write_number(self.window_right));
        let e = Element {
            name: "head".to_owned(),
            attributes: Vec::new(),
            text: String::new(),
            children,
        };
        proof {
            lemma_element_view(e);
            assert(e@.attributes =~= Seq::empty());
        }
        e
    }
}

impl Body {
    /// The element that stands for this body.
    pub fn to_element(&self) -> (e: Element)
        ensures
            e@ == body_tree(self@),
    {
        let children = write_outlines(&self.outlines);
        let e = Element {
            name: "body".to_owned(),
            attributes: Vec::new(),
            text: String::new(),
            children,
        };
        proof {
            lemma_element_view(e);
            assert(e@.attributes =~= Seq::empty());
        }
        e
    }
}

impl Opml {
    /// The element that stands for this document.
    pub fn to_element(&self) -> (e: Element)
        ensures
            e@ == document_tree(self@),
    {
        let mut attributes: Vec<Attribute> = Vec::new();
        assert(attributes_view(attributes@) =~= Seq::empty());
        push_attribute(&mut attributes, "version", self.version.clone());
        let mut children: Vec<Element> = Vec::new();
        children.push(self.head.to_element());
        children.push(self.body.to_element());
        let e = Element { name: "opml".to_owned(), attributes, text: String::new(), children };
        proof {
            lemma_element_view(e);
            assert(e@.children =~= seq![head_tree(self.head@), body_tree(self.body@)]);
        }
        e
    }
}

} // verus!
