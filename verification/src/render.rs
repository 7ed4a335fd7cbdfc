//! From an element tree to XML text.

use crate::tree::{lemma_element_view, Element, Tree};
use crate::xml::{write_element, xml_element};
use vstd::prelude::*;

verus! {

/// The text of an element: what the XML writer makes of its name, its
/// attributes and its character data, around the texts of its children.
pub open spec fn rendered(t: Tree) -> Seq<char>
    decreases t, 1nat,
{
    xml_element(t.name, t.attributes, t.text, rendered_all(t.children, t.children.len()))
}

/// The texts of the first `n` of some elements, one after the other.
pub open spec fn rendered_all(children: Seq<Tree>, n: nat) -> Seq<char>
    decreases children, n,
{
    if n == 0 || n > children.len() {
        Seq::empty()
    } else {
        rendered_all(children, (n - 1) as nat) + rendered(children[n - 1])
    }
}

/// Writes an element, with everything inside it, as XML text.
pub fn render(e: &Element) -> (s: String)
    ensures
        s@ == rendered(e@),
    decreases e,
{
    proof {
        lemma_element_view(*e);
    }
    let mut inner = String::new();
    let mut i: usize = 0;
    while i < e.children.len()
        invariant
            i <= e.children.len(),
            e@.children.len() == e.children.len(),
            forall|j: int| 0 <= j < e.children.len() ==> e@.children[j] == e.children[j]@,
            inner@ == rendered_all(e@.children, i as nat),
        decreases e.children.len() - i,
    {
        let child = render(&e.children[i]);
        inner.append(child.as_str());
        i += 1;
    }
    write_element(e.name.as_str(), &e.attributes, e.text.as_str(), inner.as_str())
}

} // verus!
