//! The element tree: what an XML text holds, as named elements with
//! attributes, character data and child elements.

use crate::error::{outcome, DecodeError, Failure};
use vstd::prelude::*;

verus! {

/// An attribute of an element.
#[derive(Debug, PartialEq)]
pub struct Attribute {
    pub name: String,
    pub value: String,
}

/// An element: its name, its attributes in document order, the character
/// data that stands directly inside it, and its child elements in document
/// order.
#[derive(Debug, PartialEq)]
pub struct Element {
    pub name: String,
    pub attributes: Vec<Attribute>,
    pub text: String,
    pub children: Vec<Element>,
}

/// An element as a mathematical value. An attribute is a pair of a name and
/// a value.
pub struct Tree {
    pub name: Seq<char>,
    pub attributes: Seq<(Seq<char>, Seq<char>)>,
    pub text: Seq<char>,
    pub children: Seq<Tree>,
}

impl View for Attribute {
    type V = (Seq<char>, Seq<char>);

    open spec fn view(&self) -> (Seq<char>, Seq<char>) {
        (self.name@, self.value@)
    }
}

/// The attributes of a list as pairs.
pub open spec fn attributes_view(attributes: Seq<Attribute>) -> Seq<(Seq<char>, Seq<char>)> {
    Seq::new(attributes.len(), |i: int| attributes[i]@)
}

/// The mathematical value of an element.
pub open spec fn tree_of(e: Element) -> Tree
    decreases e,
{
    Tree {
        name: e.name@,
        attributes: attributes_view(e.attributes@),
        text: e.text@,
        children: Seq::new(
            e.children@.len(),
            |i: int|
                if 0 <= i < e.children@.len() {
                    tree_of(e.children@[i])
                } else {
                    arbitrary()
                },
        ),
    }
}

impl View for Element {
    type V = Tree;

    open spec fn view(&self) -> Tree {
        tree_of(*self)
    }
}

impl DeepView for Element {
    type V = Tree;

    open spec fn deep_view(&self) -> Tree {
        self@
    }
}

impl DeepView for Attribute {
    type V = (Seq<char>, Seq<char>);

    open spec fn deep_view(&self) -> (Seq<char>, Seq<char>) {
        self@
    }
}

/// The elements of a list as mathematical values.
pub open spec fn elements_view(elements: Seq<Element>) -> Seq<Tree> {
    Seq::new(elements.len(), |i: int| elements[i]@)
}

/// How deeply an element nests: one for an element without children.
pub open spec fn height(t: Tree) -> nat
    decreases t, 1nat,
{
    1 + height_all(t.children, t.children.len())
}

/// The greatest height among the first `n` of some elements.
pub open spec fn height_all(children: Seq<Tree>, n: nat) -> nat
    decreases children, n,
{
    if n == 0 || n > children.len() {
        0
    } else {
        let front = height_all(children, (n - 1) as nat);
        let last = height(children[n - 1]);
        if front >= last {
            front
        } else {
            last
        }
    }
}

/// The height of some elements rests on the elements alone.
pub proof fn lemma_height_all_same(a: Seq<Tree>, b: Seq<Tree>, n: nat)
    requires
        n <= a.len(),
        n <= b.len(),
        forall|i: int| 0 <= i < n ==> a[i] == b[i],
    ensures
        height_all(a, n) == height_all(b, n),
    decreases n,
{
    if n > 0 {
        lemma_height_all_same(a, b, (n - 1) as nat);
    }
}

/// The values of the attributes named `name`, in document order.
pub open spec fn values_named(attributes: Seq<(Seq<char>, Seq<char>)>, name: Seq<char>) -> Seq<
    Seq<char>,
>
    decreases attributes.len(),
{
    if attributes.len() == 0 {
        Seq::empty()
    } else if attributes.last().0 == name {
        values_named(attributes.drop_last(), name).push(attributes.last().1)
    } else {
        values_named(attributes.drop_last(), name)
    }
}

/// The children named `name`, in document order.
pub open spec fn children_named(children: Seq<Tree>, name: Seq<char>) -> Seq<Tree>
    decreases children.len(),
{
    if children.len() == 0 {
        Seq::empty()
    } else if children.last().name == name {
        children_named(children.drop_last(), name).push(children.last())
    } else {
        children_named(children.drop_last(), name)
    }
}

/// The view of an element is made of the views of its parts.
pub proof fn lemma_element_view(e: Element)
    ensures
        e@.name == e.name@,
        e@.attributes == attributes_view(e.attributes@),
        e@.text == e.text@,
        e@.children == elements_view(e.children@),
{
    assert forall|i: int| 0 <= i < e.children@.len() implies e@.children[i] == e.children@[i]@ by {
        reveal_with_fuel(tree_of, 2);
    }
}

/// The one item of a list that may hold at most one: nothing where it is
/// empty, a failure naming `field` where it holds more.
pub open spec fn at_most_one<T>(found: Seq<T>, field: Seq<char>) -> Result<Option<T>, Failure> {
    if found.len() == 0 {
        Ok(None)
    } else if found.len() == 1 {
        Ok(Some(found[0]))
    } else {
        Err(Failure::DuplicateField { field })
    }
}

/// The value of the attribute `name` of an element, where it has one.
pub open spec fn attribute_of(tree: Tree, name: Seq<char>) -> Result<Option<Seq<char>>, Failure> {
    at_most_one(values_named(tree.attributes, name), name)
}

/// The child `name` of an element, where it has one.
pub open spec fn child_of(tree: Tree, name: Seq<char>) -> Result<Option<Tree>, Failure> {
    at_most_one(children_named(tree.children, name), name)
}

/// A list of attributes holds at least as many values under a name as any
/// of its prefixes.
pub proof fn lemma_values_named_grow(
    attributes: Seq<(Seq<char>, Seq<char>)>,
    name: Seq<char>,
    k: int,
)
    requires
        0 <= k <= attributes.len(),
    ensures
        values_named(attributes.take(k), name).len() <= values_named(attributes, name).len(),
    decreases attributes.len() - k,
{
    if k == attributes.len() {
        assert(attributes.take(k) =~= attributes);
    } else {
        assert(attributes.drop_last().take(k) =~= attributes.take(k));
        lemma_values_named_grow(attributes.drop_last(), name, k);
    }
}

/// A list of elements holds at least as many of a name as any of its prefixes.
pub proof fn lemma_children_named_grow(children: Seq<Tree>, name: Seq<char>, k: int)
    requires
        0 <= k <= children.len(),
    ensures
        children_named(children.take(k), name).len() <= children_named(children, name).len(),
    decreases children.len() - k,
{
    if k == children.len() {
        assert(children.take(k) =~= children);
    } else {
        assert(children.drop_last().take(k) =~= children.take(k));
        lemma_children_named_grow(children.drop_last(), name, k);
    }
}

impl Element {
    /// An element without attributes, character data or children.
    pub fn new(name: &str) -> (e: Element)
        ensures
            e@ == (Tree {
                name: name@,
                attributes: Seq::empty(),
                text: Seq::empty(),
                children: Seq::empty(),
            }),
    {
        let e = Element {
            name: name.to_owned(),
            attributes: Vec::new(),
            text: String::new(),
            children: Vec::new(),
        };
        assert(e@.attributes =~= Seq::empty());
        assert(e@.children =~= Seq::empty());
        e
    }

    /// The value of the attribute `name`: `None` where the element has no
    /// such attribute, a failure where it has more than one.
    pub fn attribute(&self, name: &str) -> (r: Result<Option<&String>, DecodeError>)
        ensures
            outcome(r) == attribute_of(self@, name@),
    {
        let wanted = name.to_owned();
        let mut found: Option<&String> = None;
        let mut i: usize = 0;
        let ghost all = self@.attributes;
        while i < self.attributes.len()
            invariant
                wanted@ == name@,
                i <= self.attributes.len(),
                all == self@.attributes,
                all.len() == self.attributes.len(),
                match found {
                    Some(s) => values_named(all.take(i as int), name@) == seq![s@],
                    None => values_named(all.take(i as int), name@).len() == 0,
                },
            decreases self.attributes.len() - i,
        {
            proof {
                let next = all.take(i + 1);
                assert(next.drop_last() =~= all.take(i as int));
            }
            if self.attributes[i].name == wanted {
                if found.is_some() {
                    proof {
                        lemma_values_named_grow(all, name@, i + 1);
                    }
                    return Err(DecodeError::duplicate(name));
                }
                found = Some(&self.attributes[i].value);
            }
            i += 1;
        }
        assert(all.take(i as int) =~= all);
        Ok(found)
    }

    /// The child element `name`: `None` where the element has no such child,
    /// a failure where it has more than one.
    pub fn child(&self, name: &str) -> (r: Result<Option<&Element>, DecodeError>)
        ensures
            outcome(r) == child_of(self@, name@),
    {
        let wanted = name.to_owned();
        let mut found: Option<&Element> = None;
        let mut i: usize = 0;
        let ghost all = self@.children;
        proof {
            lemma_element_view(*self);
        }
        while i < self.children.len()
            invariant
                wanted@ == name@,
                i <= self.children.len(),
                all == self@.children,
                all.len() == self.children.len(),
                match found {
                    Some(e) => children_named(all.take(i as int), name@) == seq![e@],
                    None => children_named(all.take(i as int), name@).len() == 0,
                },
            decreases self.children.len() - i,
        {
            proof {
                let next = all.take(i + 1);
                assert(next.drop_last() =~= all.take(i as int));
                assert(next.last() == self.children[i as int]@);
            }
            if self.children[i].name == wanted {
                if found.is_some() {
                    proof {
                        lemma_children_named_grow(all, name@, i + 1);
                    }
                    return Err(DecodeError::duplicate(name));
                }
                found = Some(&self.children[i]);
            }
            i += 1;
        }
        assert(all.take(i as int) =~= all);
        Ok(found)
    }
}

} // verus!
