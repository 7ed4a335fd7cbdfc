//! The document model: a document, its head, its body and the outline tree.
//!
//! The types are plain data. An optional field that is absent is `None`,
//! never an empty string or zero; a list that is absent is empty. Each type
//! has a mathematical value, its view, and two values are equal in the sense
//! of this library where their views are equal: field for field, at every
//! depth, with the order of every list.

use vstd::prelude::*;
use vstd::std_specs::cmp::PartialEqSpecImpl;

verus! {

/// A whole document: the version of the format, one head and one body.
#[derive(Debug)]
pub struct Opml {
    pub version: String,
    pub head: Head,
    pub body: Body,
}

/// What a document says about itself.
#[derive(Debug)]
pub struct Head {
    pub title: Option<String>,
    pub date_created: Option<String>,
    pub date_modified: Option<String>,
    pub owner_name: Option<String>,
    pub owner_email: Option<String>,
    /// The numbers of the outline nodes that are shown expanded, in order.
    pub expansion_state: Vec<u32>,
    pub vert_scroll_state: Option<i32>,
    pub window_top: Option<i32>,
    pub window_left: Option<i32>,
    pub window_bottom: Option<i32>,
    pub window_right: Option<i32>,
}

/// The outline nodes at the top level, in display order.
#[derive(Debug)]
pub struct Body {
    pub outlines: Vec<Outline>,
}

/// One node of the outline tree, with its children in display order.
#[derive(Debug)]
pub struct Outline {
    pub text: String,
    pub category: Vec<String>,
    pub created: Option<String>,
    pub is_comment: Option<bool>,
    pub is_breakpoint: Option<bool>,
    pub description: Option<String>,
    pub html_url: Option<String>,
    pub language: Option<String>,
    pub title: Option<String>,
    pub ty: Option<String>,
    pub version: Option<String>,
    pub xml_url: Option<String>,
    pub url: Option<String>,
    pub outlines: Vec<Outline>,
}

/// A document as a mathematical value.
pub struct OpmlView {
    pub version: Seq<char>,
    pub head: HeadView,
    pub body: BodyView,
}

/// A head as a mathematical value.
pub struct HeadView {
    pub title: Option<Seq<char>>,
    pub date_created: Option<Seq<char>>,
    pub date_modified: Option<Seq<char>>,
    pub owner_name: Option<Seq<char>>,
    pub owner_email: Option<Seq<char>>,
    pub expansion_state: Seq<u32>,
    pub vert_scroll_state: Option<i32>,
    pub window_top: Option<i32>,
    pub window_left: Option<i32>,
    pub window_bottom: Option<i32>,
    pub window_right: Option<i32>,
}

/// A body as a mathematical value.
pub struct BodyView {
    pub outlines: Seq<OutlineView>,
}

/// An outline node as a mathematical value.
pub struct OutlineView {
    pub text: Seq<char>,
    pub category: Seq<Seq<char>>,
    pub created: Option<Seq<char>>,
    pub is_comment: Option<bool>,
    pub is_breakpoint: Option<bool>,
    pub description: Option<Seq<char>>,
    pub html_url: Option<Seq<char>>,
    pub language: Option<Seq<char>>,
    pub title: Option<Seq<char>>,
    pub ty: Option<Seq<char>>,
    pub version: Option<Seq<char>>,
    pub xml_url: Option<Seq<char>>,
    pub url: Option<Seq<char>>,
    pub outlines: Seq<OutlineView>,
}

/// The mathematical value of an outline node.
pub open spec fn outline_view(o: Outline) -> OutlineView
    decreases o,
{
    OutlineView {
        text: o.text@,
        category: o.category.deep_view(),
        created: o.created.deep_view(),
        is_comment: o.is_comment,
        is_breakpoint: o.is_breakpoint,
        description: o.description.deep_view(),
        html_url: o.html_url.deep_view(),
        language: o.language.deep_view(),
        title: o.title.deep_view(),
        ty: o.ty.deep_view(),
        version: o.version.deep_view(),
        xml_url: o.xml_url.deep_view(),
        url: o.url.deep_view(),
        outlines: Seq::new(
            o.outlines@.len(),
            |i: int|
                if 0 <= i < o.outlines@.len() {
                    outline_view(o.outlines@[i])
                } else {
                    arbitrary()
                },
        ),
    }
}

/// How deeply an outline node nests: one for a leaf.
pub open spec fn outline_depth(o: OutlineView) -> nat
    decreases o, 1nat,
{
    1 + outlines_depth(o.outlines, o.outlines.len())
}

/// The greatest depth among the first `n` of some outline nodes.
pub open spec fn outlines_depth(outlines: Seq<OutlineView>, n: nat) -> nat
    decreases outlines, n,
{
    if n == 0 || n > outlines.len() {
        0
    } else {
        let front = outlines_depth(outlines, (n - 1) as nat);
        let last = outline_depth(outlines[n - 1]);
        if front >= last {
            front
        } else {
            last
        }
    }
}

/// The mathematical values of a list of outline nodes.
pub open spec fn outlines_view(outlines: Seq<Outline>) -> Seq<OutlineView> {
    Seq::new(outlines.len(), |i: int| outlines[i]@)
}

impl View for Outline {
    type V = OutlineView;

    open spec fn view(&self) -> OutlineView {
        outline_view(*self)
    }
}

impl View for Body {
    type V = BodyView;

    open spec fn view(&self) -> BodyView {
        BodyView { outlines: outlines_view(self.outlines@) }
    }
}

impl View for Head {
    type V = HeadView;

    open spec fn view(&self) -> HeadView {
        HeadView {
            title: self.title.deep_view(),
            date_created: self.date_created.deep_view(),
            date_modified: self.date_modified.deep_view(),
            owner_name: self.owner_name.deep_view(),
            owner_email: self.owner_email.deep_view(),
            expansion_state: self.expansion_state@,
            vert_scroll_state: self.vert_scroll_state,
            window_top: self.window_top,
            window_left: self.window_left,
            window_bottom: self.window_bottom,
            window_right: self.window_right,
        }
    }
}

impl View for Opml {
    type V = OpmlView;

    open spec fn view(&self) -> OpmlView {
        OpmlView { version: self.version@, head: self.head@, body: self.body@ }
    }
}

impl DeepView for Outline {
    type V = OutlineView;

    open spec fn deep_view(&self) -> OutlineView {
        self@
    }
}

impl DeepView for Body {
    type V = BodyView;

    open spec fn deep_view(&self) -> BodyView {
        self@
    }
}

impl DeepView for Head {
    type V = HeadView;

    open spec fn deep_view(&self) -> HeadView {
        self@
    }
}

impl DeepView for Opml {
    type V = OpmlView;

    open spec fn deep_view(&self) -> OpmlView {
        self@
    }
}

/// The view of an outline node is made of the views of its parts.
pub proof fn lemma_outline_view(o: Outline)
    ensures
        o@.text == o.text@,
        o@.category == o.category.deep_view(),
        o@.created == o.created.deep_view(),
        o@.is_comment == o.is_comment,
        o@.is_breakpoint == o.is_breakpoint,
        o@.description == o.description.deep_view(),
        o@.html_url == o.html_url.deep_view(),
        o@.language == o.language.deep_view(),
        o@.title == o.title.deep_view(),
        o@.ty == o.ty.deep_view(),
        o@.version == o.version.deep_view(),
        o@.xml_url == o.xml_url.deep_view(),
        o@.url == o.url.deep_view(),
        o@.outlines == outlines_view(o.outlines@),
{
    assert forall|i: int| 0 <= i < o.outlines@.len() implies o@.outlines[i] == o.outlines@[i]@ by {
        reveal_with_fuel(outline_view, 2);
    }
}

/// Whether two optional texts are both absent or both present and equal.
fn same_optional(a: &Option<String>, b: &Option<String>) -> (r: bool)
    ensures
        r == (a.deep_view() == b.deep_view()),
{
    match (a, b) {
        (Some(x), Some(y)) => *x == *y,
        (None, None) => true,
        _ => false,
    }
}

/// Whether two lists hold equal texts in the same order.
fn same_strings(a: &Vec<String>, b: &Vec<String>) -> (r: bool)
    ensures
        r == (a.deep_view() == b.deep_view()),
{
    if a.len() != b.len() {
        assert(a.deep_view().len() != b.deep_view().len());
        return false;
    }
    let mut i: usize = 0;
    while i < a.len()
        invariant
            i <= a.len(),
            a.len() == b.len(),
            forall|j: int| 0 <= j < i ==> a[j]@ == b[j]@,
        decreases a.len() - i,
    {
        if a[i] != b[i] {
            assert(a.deep_view()[i as int] != b.deep_view()[i as int]);
            return false;
        }
        i += 1;
    }
    assert(a.deep_view() =~= b.deep_view());
    true
}

/// Whether two lists hold the same numbers in the same order.
fn same_numbers(a: &Vec<u32>, b: &Vec<u32>) -> (r: bool)
    ensures
        r == (a@ == b@),
{
    if a.len() != b.len() {
        return false;
    }
    let mut i: usize = 0;
    while i < a.len()
        invariant
            i <= a.len(),
            a.len() == b.len(),
            forall|j: int| 0 <= j < i ==> a[j] == b[j],
        decreases a.len() - i,
    {
        if a[i] != b[i] {
            return false;
        }
        i += 1;
    }
    assert(a@ =~= b@);
    true
}

/// Whether two lists hold equal nodes in the same order.
fn same_outlines(a: &Vec<Outline>, b: &Vec<Outline>) -> (r: bool)
    ensures
        r == (outlines_view(a@) == outlines_view(b@)),
    decreases a,
{
    if a.len() != b.len() {
        assert(outlines_view(a@).len() != outlines_view(b@).len());
        return false;
    }
    let mut i: usize = 0;
    while i < a.len()
        invariant
            i <= a.len(),
            a.len() == b.len(),
            forall|j: int| 0 <= j < i ==> a[j]@ == b[j]@,
        decreases a.len() - i,
    {
        if !same_outline(&a[i], &b[i]) {
            assert(outlines_view(a@)[i as int] != outlines_view(b@)[i as int]);
            return false;
        }
        i += 1;
    }
    assert(outlines_view(a@) =~= outlines_view(b@));
    true
}

/// Whether two nodes are equal, field for field, with the nodes below them.
fn same_outline(a: &Outline, b: &Outline) -> (r: bool)
    ensures
        r == (a@ == b@),
    decreases a,
{
    proof {
        lemma_outline_view(*a);
        lemma_outline_view(*b);
    }
    a.text == b.text && same_strings(&a.category, &b.category) && same_optional(
        &a.created,
        &b.created,
    ) && a.is_comment == b.is_comment && a.is_breakpoint == b.is_breakpoint && same_optional(
        &a.description,
        &b.description,
    ) && same_optional(&a.html_url, &b.html_url) && same_optional(&a.language, &b.language)
        && same_optional(&a.title, &b.title) && same_optional(&a.ty, &b.ty) && same_optional(
        &a.version,
        &b.version,
    ) && same_optional(&a.xml_url, &b.xml_url) && same_optional(&a.url, &b.url) && same_outlines(
        &a.outlines,
        &b.outlines,
    )
}

/// Whether two heads are equal, field for field.
fn same_head(a: &Head, b: &Head) -> (r: bool)
    ensures
        r == (a@ == b@),
{
    same_optional(&a.title, &b.title) && same_optional(&a.date_created, &b.date_created)
        && same_optional(&a.date_modified, &b.date_modified) && same_optional(
        &a.owner_name,
        &b.owner_name,
    ) && same_optional(&a.owner_email, &b.owner_email) && same_numbers(
        &a.expansion_state,
        &b.expansion_state,
    ) && a.vert_scroll_state == b.vert_scroll_state && a.window_top == b.window_top
        && a.window_left == b.window_left && a.window_bottom == b.window_bottom && a.window_right
        == b.window_right
}

impl PartialEq for Outline {
    /// Whether two nodes are equal, field for field, with the nodes below them.
    fn eq(&self, other: &Outline) -> (r: bool) {
        same_outline(self, other)
    }
}

impl PartialEqSpecImpl for Outline {
    open spec fn obeys_eq_spec() -> bool {
        true
    }

    open spec fn eq_spec(&self, other: &Outline) -> bool {
        self@ == other@
    }
}

impl PartialEq for Head {
    /// Whether two heads are equal, field for field.
    fn eq(&self, other: &Head) -> (r: bool) {
        same_head(self, other)
    }
}

impl PartialEqSpecImpl for Head {
    open spec fn obeys_eq_spec() -> bool {
        true
    }

    open spec fn eq_spec(&self, other: &Head) -> bool {
        self@ == other@
    }
}

impl PartialEq for Body {
    /// Whether two bodies hold equal nodes in the same order.
    fn eq(&self, other: &Body) -> (r: bool) {
        same_outlines(&self.outlines, &other.outlines)
    }
}

impl PartialEqSpecImpl for Body {
    open spec fn obeys_eq_spec() -> bool {
        true
    }

    open spec fn eq_spec(&self, other: &Body) -> bool {
        self@ == other@
    }
}

impl PartialEq for Opml {
    /// Whether two documents are equal: version, head and body.
    fn eq(&self, other: &Opml) -> (r: bool) {
        self.version == other.version && same_head(&self.head, &other.head) && same_outlines(
            &self.body.outlines,
            &other.body.outlines,
        )
    }
}

impl PartialEqSpecImpl for Opml {
    open spec fn obeys_eq_spec() -> bool {
        true
    }

    open spec fn eq_spec(&self, other: &Opml) -> bool {
        self@ == other@
    }
}

impl Outline {
    /// A node with a label and nothing else.
    pub fn new(text: &str) -> (o: Outline)
        ensures
            o@ == (OutlineView {
                text: text@,
                category: Seq::empty(),
                created: None,
                is_comment: None,
                is_breakpoint: None,
                description: None,
                html_url: None,
                language: None,
                title: None,
                ty: None,
                version: None,
                xml_url: None,
                url: None,
                outlines: Seq::empty(),
            }),
    {
        let o = Outline {
            text: text.to_owned(),
            category: Vec::new(),
            created: None,
            is_comment: None,
            is_breakpoint: None,
            description: None,
            html_url: None,
            language: None,
            title: None,
            ty: None,
            version: None,
            xml_url: None,
            url: None,
            outlines: Vec::new(),
        };
        proof {
            lemma_outline_view(o);
            assert(o@.category =~= Seq::empty());
            assert(o@.outlines =~= Seq::empty());
        }
        o
    }
}

impl Head {
    /// A head in which every field is absent.
    pub fn new() -> (h: Head)
        ensures
            h@ == (HeadView {
                title: None,
                date_created: None,
                date_modified: None,
                owner_name: None,
                owner_email: None,
                expansion_state: Seq::empty(),
                vert_scroll_state: None,
                window_top: None,
                window_left: None,
                window_bottom: None,
                window_right: None,
            }),
    {
        Head {
            title: None,
            date_created: None,
            date_modified: None,
            owner_name: None,
            owner_email: None,
            expansion_state: Vec::new(),
            vert_scroll_state: None,
            window_top: None,
            window_left: None,
            window_bottom: None,
            window_right: None,
        }
    }
}

} // verus!
