//! What holds between reading and writing: a document that is written as
//! an element tree and read again is the same document.

use crate::decode::{
    body_of, child_text, document_body, document_head, document_of, head_failure, head_of,
    head_record, named, number_list, optional_flag, optional_number, outline_of, outlines_of,
};
use crate::encode::{
    body_tree, document_tree, flag_text, head_children, head_tree, lemma_outline_tree,
    number_text, numbers_text, optional_attribute, optional_child, outline_attributes,
    outline_tree, outline_trees, strings_text, text_element,
};
use crate::error::Failure;
use crate::lists::{law_int_list_round_trip, law_string_list_round_trip};
use crate::model::{outline_depth, outlines_depth, BodyView, HeadView, OpmlView, OutlineView};
use crate::scalar::{law_signed_round_trip, law_truth_round_trip};
use crate::text::{all_free_of, lemma_pieces_free};
use crate::codec::document_of_text;
use crate::parse::{
    advanced, bare, flattened, flattened_all, nested_from, placed, start, text_tokens,
    tree_of_text, tree_of_tokens, with_child, with_text, Progress, TokenView,
};
use crate::render::rendered;
use crate::tree::{
    attribute_of, child_of, children_named, height, height_all, lemma_height_all_same,
    values_named, Tree,
};
use vstd::prelude::*;

verus! {

/// Whether an outline node can be told from its text form: a category
/// holds no comma, in this node and in every node below it. A comma inside
/// a category cannot be told from the comma between two categories.
pub open spec fn outline_representable(o: OutlineView) -> bool
    decreases o,
{
    &&& all_free_of(o.category, ',')
    &&& forall|i: int| 0 <= i < o.outlines.len() ==> outline_representable(#[trigger] o.outlines[i])
}

/// Whether every outline node of a list is representable.
pub open spec fn outlines_representable(outlines: Seq<OutlineView>) -> bool {
    forall|i: int| 0 <= i < outlines.len() ==> outline_representable(#[trigger] outlines[i])
}

/// Whether a document can be told from its text form.
pub open spec fn representable(d: OpmlView) -> bool {
    outlines_representable(d.body.outlines)
}

/// The values that an optional field adds for a name.
pub open spec fn selected(field: Seq<char>, value: Option<Seq<char>>, name: Seq<char>) -> Seq<
    Seq<char>,
> {
    match value {
        Some(v) => if field == name {
            seq![v]
        } else {
            Seq::empty()
        },
        None => Seq::empty(),
    }
}

/// The children that an optional field adds for a name.
pub open spec fn selected_child(field: Seq<char>, value: Option<Seq<char>>, name: Seq<char>) -> Seq<
    Tree,
> {
    match value {
        Some(v) => if field == name {
            seq![text_element(field, v)]
        } else {
            Seq::empty()
        },
        None => Seq::empty(),
    }
}

/// What a single attribute holds under a name.
proof fn lemma_values_single(field: Seq<char>, value: Seq<char>, name: Seq<char>)
    ensures
        values_named(seq![(field, value)], name) == selected(field, Some(value), name),
{
    let s = seq![(field, value)];
    assert(s.drop_last() =~= Seq::empty());
    assert(values_named(s.drop_last(), name) =~= Seq::empty());
    assert(values_named(s, name) =~= selected(field, Some(value), name));
}

/// What a list of attributes holds under a name once an optional field is
/// written behind it.
proof fn lemma_values_append(
    front: Seq<(Seq<char>, Seq<char>)>,
    field: Seq<char>,
    value: Option<Seq<char>>,
    name: Seq<char>,
)
    ensures
        values_named(front + optional_attribute(field, value), name) == values_named(front, name)
            + selected(field, value, name),
{
    match value {
        Some(v) => {
            let all = front + optional_attribute(field, value);
            assert(all.drop_last() =~= front);
            assert(all.last() == (field, v));
            assert(values_named(all, name) =~= values_named(front, name) + selected(
                field,
                value,
                name,
            ));
        },
        None => {
            assert(front + optional_attribute(field, value) =~= front);
            assert(values_named(front, name) + selected(field, value, name) =~= values_named(
                front,
                name,
            ));
        },
    }
}

/// What a list of elements holds under a name once an optional field is
/// written behind it.
proof fn lemma_children_append(
    front: Seq<Tree>,
    field: Seq<char>,
    value: Option<Seq<char>>,
    name: Seq<char>,
)
    ensures
        children_named(front + optional_child(field, value), name) == children_named(front, name)
            + selected_child(field, value, name),
{
    match value {
        Some(v) => {
            let all = front + optional_child(field, value);
            assert(all.drop_last() =~= front);
            assert(all.last() == text_element(field, v));
            assert(children_named(all, name) =~= children_named(front, name) + selected_child(
                field,
                value,
                name,
            ));
        },
        None => {
            assert(front + optional_child(field, value) =~= front);
            assert(children_named(front, name) + selected_child(field, value, name)
                =~= children_named(front, name));
        },
    }
}

/// The names of the attributes of an outline element differ from one another.
proof fn lemma_outline_names()
    ensures
        "text"@.len() == 4,
        "category"@.len() == 8,
        "created"@.len() == 7,
        "isComment"@.len() == 9,
        "isBreakpoint"@.len() == 12,
        "description"@.len() == 11,
        "htmlUrl"@.len() == 7,
        "language"@.len() == 8,
        "title"@.len() == 5,
        "type"@.len() == 4,
        "version"@.len() == 7,
        "xmlUrl"@.len() == 6,
        "url"@.len() == 3,
        "text"@[1] == 'e',
        "type"@[1] == 'y',
        "category"@[0] == 'c',
        "language"@[0] == 'l',
        "created"@[0] == 'c',
        "htmlUrl"@[0] == 'h',
        "version"@[0] == 'v',
{
    reveal_strlit("text");
    reveal_strlit("category");
    reveal_strlit("created");
    reveal_strlit("isComment");
    reveal_strlit("isBreakpoint");
    reveal_strlit("description");
    reveal_strlit("htmlUrl");
    reveal_strlit("language");
    reveal_strlit("title");
    reveal_strlit("type");
    reveal_strlit("version");
    reveal_strlit("xmlUrl");
    reveal_strlit("url");
}

/// What the attributes of an outline element hold under a name.
proof fn lemma_outline_lookup(o: OutlineView, name: Seq<char>)
    ensures
        values_named(outline_attributes(o), name) == selected("text"@, Some(o.text), name)
            + selected("category"@, strings_text(o.category), name) + selected(
            "created"@,
            o.created,
            name,
        ) + selected("isComment"@, flag_text(o.is_comment), name) + selected(
            "isBreakpoint"@,
            flag_text(o.is_breakpoint),
            name,
        ) + selected("description"@, o.description, name) + selected("htmlUrl"@, o.html_url, name)
            + selected("language"@, o.language, name) + selected("title"@, o.title, name)
            + selected("type"@, o.ty, name) + selected("version"@, o.version, name) + selected(
            "xmlUrl"@,
            o.xml_url,
            name,
        ) + selected("url"@, o.url, name),
{
    let a0 = seq![("text"@, o.text)];
    let a1 = a0 + optional_attribute("category"@, strings_text(o.category));
    let a2 = a1 + optional_attribute("created"@, o.created);
    let a3 = a2 + optional_attribute("isComment"@, flag_text(o.is_comment));
    let a4 = a3 + optional_attribute("isBreakpoint"@, flag_text(o.is_breakpoint));
    let a5 = a4 + optional_attribute("description"@, o.description);
    let a6 = a5 + optional_attribute("htmlUrl"@, o.html_url);
    let a7 = a6 + optional_attribute("language"@, o.language);
    let a8 = a7 + optional_attribute("title"@, o.title);
    let a9 = a8 + optional_attribute("type"@, o.ty);
    let a10 = a9 + optional_attribute("version"@, o.version);
    let a11 = a10 + optional_attribute("xmlUrl"@, o.xml_url);
    lemma_values_single("text"@, o.text, name);
    lemma_values_append(a0, "category"@, strings_text(o.category), name);
    lemma_values_append(a1, "created"@, o.created, name);
    lemma_values_append(a2, "isComment"@, flag_text(o.is_comment), name);
    lemma_values_append(a3, "isBreakpoint"@, flag_text(o.is_breakpoint), name);
    lemma_values_append(a4, "description"@, o.description, name);
    lemma_values_append(a5, "htmlUrl"@, o.html_url, name);
    lemma_values_append(a6, "language"@, o.language, name);
    lemma_values_append(a7, "title"@, o.title, name);
    lemma_values_append(a8, "type"@, o.ty, name);
    lemma_values_append(a9, "version"@, o.version, name);
    lemma_values_append(a10, "xmlUrl"@, o.xml_url, name);
    lemma_values_append(a11, "url"@, o.url, name);
}

/// Each attribute of an outline element is found under its name, once.
proof fn lemma_outline_fields(o: OutlineView)
    ensures
        attribute_of(outline_tree(o), "text"@) == Ok::<Option<Seq<char>>, Failure>(Some(o.text)),
        attribute_of(outline_tree(o), "category"@) == Ok::<Option<Seq<char>>, Failure>(
            strings_text(o.category),
        ),
        attribute_of(outline_tree(o), "created"@) == Ok::<Option<Seq<char>>, Failure>(o.created),
        attribute_of(outline_tree(o), "isComment"@) == Ok::<Option<Seq<char>>, Failure>(
            flag_text(o.is_comment),
        ),
        attribute_of(outline_tree(o), "isBreakpoint"@) == Ok::<Option<Seq<char>>, Failure>(
            flag_text(o.is_breakpoint),
        ),
        attribute_of(outline_tree(o), "description"@) == Ok::<Option<Seq<char>>, Failure>(
            o.description,
        ),
        attribute_of(outline_tree(o), "htmlUrl"@) == Ok::<Option<Seq<char>>, Failure>(o.html_url),
        attribute_of(outline_tree(o), "language"@) == Ok::<Option<Seq<char>>, Failure>(o.language),
        attribute_of(outline_tree(o), "title"@) == Ok::<Option<Seq<char>>, Failure>(o.title),
        attribute_of(outline_tree(o), "type"@) == Ok::<Option<Seq<char>>, Failure>(o.ty),
        attribute_of(outline_tree(o), "version"@) == Ok::<Option<Seq<char>>, Failure>(o.version),
        attribute_of(outline_tree(o), "xmlUrl"@) == Ok::<Option<Seq<char>>, Failure>(o.xml_url),
        attribute_of(outline_tree(o), "url"@) == Ok::<Option<Seq<char>>, Failure>(o.url),
{
    lemma_outline_tree(o);
    lemma_outline_names();
    lemma_outline_lookup(o, "text"@);
    lemma_outline_lookup(o, "category"@);
    lemma_outline_lookup(o, "created"@);
    lemma_outline_lookup(o, "isComment"@);
    lemma_outline_lookup(o, "isBreakpoint"@);
    lemma_outline_lookup(o, "description"@);
    lemma_outline_lookup(o, "htmlUrl"@);
    lemma_outline_lookup(o, "language"@);
    lemma_outline_lookup(o, "title"@);
    lemma_outline_lookup(o, "type"@);
    lemma_outline_lookup(o, "version"@);
    lemma_outline_lookup(o, "xmlUrl"@);
    lemma_outline_lookup(o, "url"@);
}

/// Reading the elements of a list of outline nodes gives the nodes back.
proof fn lemma_outlines_round_trip(outlines: Seq<OutlineView>, n: nat)
    requires
        outlines_representable(outlines),
        n <= outlines.len(),
    ensures
        outlines_of(outline_trees(outlines), n) == Ok::<Seq<OutlineView>, Failure>(
            outlines.take(n as int),
        ),
    decreases outlines, n,
{
    if n == 0 {
        assert(outlines.take(0) =~= Seq::empty());
    } else {
        lemma_outlines_round_trip(outlines, (n - 1) as nat);
        law_outline_round_trip(outlines[n - 1]);
        lemma_outline_tree(outlines[n - 1]);
        assert(outline_trees(outlines)[n - 1] == outline_tree(outlines[n - 1]));
        assert(outlines.take(n - 1).push(outlines[n - 1]) =~= outlines.take(n as int));
    }
}

/// Writing an outline node as an element and reading the element gives the
/// node back, where no category of the node or of a node below it holds a
/// comma.
pub proof fn law_outline_round_trip(o: OutlineView)
    requires
        outline_representable(o),
    ensures
        outline_of(outline_tree(o)) == Ok::<OutlineView, Failure>(o),
        named(outline_tree(o), "outline"@, outline_of(outline_tree(o))) == Ok::<
            OutlineView,
            Failure,
        >(o),
    decreases o, 0nat,
{
    let t = outline_tree(o);
    lemma_outline_tree(o);
    lemma_outline_fields(o);
    assert(outlines_representable(o.outlines));
    lemma_outlines_round_trip(o.outlines, o.outlines.len());
    assert(o.outlines.take(o.outlines.len() as int) =~= o.outlines);
    assert(t.children.len() == o.outlines.len());
    if o.category.len() > 0 {
        law_string_list_round_trip(o.category);
    } else {
        assert(o.category =~= Seq::empty());
    }
    if o.is_comment is Some {
        law_truth_round_trip(o.is_comment.unwrap());
    }
    if o.is_breakpoint is Some {
        law_truth_round_trip(o.is_breakpoint.unwrap());
    }
}

/// Every outline node that is read from an element is representable.
pub proof fn law_outline_read_is_representable(t: Tree)
    requires
        outline_of(t) is Ok,
    ensures
        outline_representable(outline_of(t)->Ok_0),
    decreases t, 1nat,
{
    lemma_outlines_read_representable(t.children, t.children.len());
    match attribute_of(t, "category"@) {
        Ok(Some(value)) => {
            lemma_pieces_free(value, ',');
        },
        _ => {},
    }
}

/// Every outline node that is read from a list of elements is representable.
proof fn lemma_outlines_read_representable(children: Seq<Tree>, n: nat)
    requires
        outlines_of(children, n) is Ok,
    ensures
        outlines_representable(outlines_of(children, n)->Ok_0),
    decreases children, n,
{
    if 0 < n <= children.len() {
        lemma_outlines_read_representable(children, (n - 1) as nat);
        if children[n - 1].name == "outline"@ {
            law_outline_read_is_representable(children[n - 1]);
        }
    }
}

/// The names of the children of a head element differ from one another.
proof fn lemma_head_names()
    ensures
        "title"@.len() == 5,
        "dateCreated"@.len() == 11,
        "dateModified"@.len() == 12,
        "ownerName"@.len() == 9,
        "ownerEmail"@.len() == 10,
        "expansionState"@.len() == 14,
        "vertScrollState"@.len() == 15,
        "windowTop"@.len() == 9,
        "windowLeft"@.len() == 10,
        "windowBottom"@.len() == 12,
        "windowRight"@.len() == 11,
        "dateCreated"@[0] == 'd',
        "dateModified"@[0] == 'd',
        "ownerName"@[0] == 'o',
        "ownerEmail"@[0] == 'o',
        "windowTop"@[0] == 'w',
        "windowLeft"@[0] == 'w',
        "windowBottom"@[0] == 'w',
        "windowRight"@[0] == 'w',
{
    reveal_strlit("title");
    reveal_strlit("dateCreated");
    reveal_strlit("dateModified");
    reveal_strlit("ownerName");
    reveal_strlit("ownerEmail");
    reveal_strlit("expansionState");
    reveal_strlit("vertScrollState");
    reveal_strlit("windowTop");
    reveal_strlit("windowLeft");
    reveal_strlit("windowBottom");
    reveal_strlit("windowRight");
}

/// What the children of a head element hold under a name.
proof fn lemma_head_lookup(h: HeadView, name: Seq<char>)
    ensures
        children_named(head_children(h), name) == selected_child("title"@, h.title, name)
            + selected_child("dateCreated"@, h.date_created, name) + selected_child(
            "dateModified"@,
            h.date_modified,
            name,
        ) + selected_child("ownerName"@, h.owner_name, name) + selected_child(
            "ownerEmail"@,
            h.owner_email,
            name,
        ) + selected_child("expansionState"@, numbers_text(h.expansion_state), name)
            + selected_child("vertScrollState"@, number_text(h.vert_scroll_state), name)
            + selected_child("windowTop"@, number_text(h.window_top), name) + selected_child(
            "windowLeft"@,
            number_text(h.window_left),
            name,
        ) + selected_child("windowBottom"@, number_text(h.window_bottom), name) + selected_child(
            "windowRight"@,
            number_text(h.window_right),
            name,
        ),
{
    let none = Seq::<Tree>::empty();
    let c0 = optional_child("title"@, h.title);
    let c1 = c0 + optional_child("dateCreated"@, h.date_created);
    let c2 = c1 + optional_child("dateModified"@, h.date_modified);
    let c3 = c2 + optional_child("ownerName"@, h.owner_name);
    let c4 = c3 + optional_child("ownerEmail"@, h.owner_email);
    let c5 = c4 + optional_child("expansionState"@, numbers_text(h.expansion_state));
    let c6 = c5 + optional_child("vertScrollState"@, number_text(h.vert_scroll_state));
    let c7 = c6 + optional_child("windowTop"@, number_text(h.window_top));
    let c8 = c7 + optional_child("windowLeft"@, number_text(h.window_left));
    let c9 = c8 + optional_child("windowBottom"@, number_text(h.window_bottom));
    assert(none + c0 =~= c0);
    assert(children_named(none, name) + selected_child("title"@, h.title, name)
        =~= selected_child("title"@, h.title, name));
    lemma_children_append(none, "title"@, h.title, name);
    lemma_children_append(c0, "dateCreated"@, h.date_created, name);
    lemma_children_append(c1, "dateModified"@, h.date_modified, name);
    lemma_children_append(c2, "ownerName"@, h.owner_name, name);
    lemma_children_append(c3, "ownerEmail"@, h.owner_email, name);
    lemma_children_append(c4, "expansionState"@, numbers_text(h.expansion_state), name);
    lemma_children_append(c5, "vertScrollState"@, number_text(h.vert_scroll_state), name);
    lemma_children_append(c6, "windowTop"@, number_text(h.window_top), name);
    lemma_children_append(c7, "windowLeft"@, number_text(h.window_left), name);
    lemma_children_append(c8, "windowBottom"@, number_text(h.window_bottom), name);
    lemma_children_append(c9, "windowRight"@, number_text(h.window_right), name);
}

/// The child that carries a field, where the field is present.
pub open spec fn field_child(name: Seq<char>, value: Option<Seq<char>>) -> Option<Tree> {
    match value {
        Some(v) => Some(text_element(name, v)),
        None => None,
    }
}

/// Each child of a head element is found under its name, once.
proof fn lemma_head_fields(h: HeadView)
    ensures
        child_of(head_tree(h), "title"@) == Ok::<Option<Tree>, Failure>(
            field_child("title"@, h.title),
        ),
        child_of(head_tree(h), "dateCreated"@) == Ok::<Option<Tree>, Failure>(
            field_child("dateCreated"@, h.date_created),
        ),
        child_of(head_tree(h), "dateModified"@) == Ok::<Option<Tree>, Failure>(
            field_child("dateModified"@, h.date_modified),
        ),
        child_of(head_tree(h), "ownerName"@) == Ok::<Option<Tree>, Failure>(
            field_child("ownerName"@, h.owner_name),
        ),
        child_of(head_tree(h), "ownerEmail"@) == Ok::<Option<Tree>, Failure>(
            field_child("ownerEmail"@, h.owner_email),
        ),
        child_of(head_tree(h), "expansionState"@) == Ok::<Option<Tree>, Failure>(
            field_child("expansionState"@, numbers_text(h.expansion_state)),
        ),
        child_of(head_tree(h), "vertScrollState"@) == Ok::<Option<Tree>, Failure>(
            field_child("vertScrollState"@, number_text(h.vert_scroll_state)),
        ),
        child_of(head_tree(h), "windowTop"@) == Ok::<Option<Tree>, Failure>(
            field_child("windowTop"@, number_text(h.window_top)),
        ),
        child_of(head_tree(h), "windowLeft"@) == Ok::<Option<Tree>, Failure>(
            field_child("windowLeft"@, number_text(h.window_left)),
        ),
        child_of(head_tree(h), "windowBottom"@) == Ok::<Option<Tree>, Failure>(
            field_child("windowBottom"@, number_text(h.window_bottom)),
        ),
        child_of(head_tree(h), "windowRight"@) == Ok::<Option<Tree>, Failure>(
            field_child("windowRight"@, number_text(h.window_right)),
        ),
{
    lemma_head_names();
    lemma_head_lookup(h, "title"@);
    lemma_head_lookup(h, "dateCreated"@);
    lemma_head_lookup(h, "dateModified"@);
    lemma_head_lookup(h, "ownerName"@);
    lemma_head_lookup(h, "ownerEmail"@);
    lemma_head_lookup(h, "expansionState"@);
    lemma_head_lookup(h, "vertScrollState"@);
    lemma_head_lookup(h, "windowTop"@);
    lemma_head_lookup(h, "windowLeft"@);
    lemma_head_lookup(h, "windowBottom"@);
    lemma_head_lookup(h, "windowRight"@);
}

/// A text field that was written is read back.
proof fn lemma_text_field(name: Seq<char>, value: Option<Seq<char>>)
    ensures
        child_text(Ok(field_child(name, value))) == Ok::<Option<Seq<char>>, Failure>(value),
{
}

/// A number that was written is read back.
proof fn lemma_number_field(name: Seq<char>, value: Option<i32>)
    ensures
        optional_number(child_text(Ok(field_child(name, number_text(value)))), name) == Ok::<
            Option<i32>,
            Failure,
        >(value),
{
    if value is Some {
        law_signed_round_trip(value.unwrap());
    }
}

/// A list of numbers that was written is read back.
proof fn lemma_numbers_field(name: Seq<char>, value: Seq<u32>)
    ensures
        number_list(child_text(Ok(field_child(name, numbers_text(value)))), name) == Ok::<
            Seq<u32>,
            Failure,
        >(value),
{
    if value.len() > 0 {
        law_int_list_round_trip(value);
    } else {
        assert(value =~= Seq::empty());
    }
}

/// Writing a head as an element and reading the element gives the head back.
pub proof fn law_head_round_trip(h: HeadView)
    ensures
        head_of(head_tree(h)) == Ok::<HeadView, Failure>(h),
        named(head_tree(h), "head"@, head_of(head_tree(h))) == Ok::<HeadView, Failure>(h),
{
    let t = head_tree(h);
    lemma_head_fields(h);
    lemma_text_field("title"@, h.title);
    lemma_text_field("dateCreated"@, h.date_created);
    lemma_text_field("dateModified"@, h.date_modified);
    lemma_text_field("ownerName"@, h.owner_name);
    lemma_text_field("ownerEmail"@, h.owner_email);
    lemma_numbers_field("expansionState"@, h.expansion_state);
    lemma_number_field("vertScrollState"@, h.vert_scroll_state);
    lemma_number_field("windowTop"@, h.window_top);
    lemma_number_field("windowLeft"@, h.window_left);
    lemma_number_field("windowBottom"@, h.window_bottom);
    lemma_number_field("windowRight"@, h.window_right);
    assert(head_failure(t) is None);
    assert(head_record(t) == h);
}

/// Writing a body as an element and reading the element gives the body
/// back, where no category of any of its nodes holds a comma.
pub proof fn law_body_round_trip(b: BodyView)
    requires
        outlines_representable(b.outlines),
    ensures
        body_of(body_tree(b)) == Ok::<BodyView, Failure>(b),
        named(body_tree(b), "body"@, body_of(body_tree(b))) == Ok::<BodyView, Failure>(b),
{
    lemma_outlines_round_trip(b.outlines, b.outlines.len());
    assert(b.outlines.take(b.outlines.len() as int) =~= b.outlines);
}

/// Every body that is read from an element is representable.
pub proof fn law_body_read_is_representable(t: Tree)
    requires
        body_of(t) is Ok,
    ensures
        outlines_representable(body_of(t)->Ok_0.outlines),
{
    lemma_outlines_read_representable(t.children, t.children.len());
}

/// The round trip: writing a document as an element and reading the
/// element gives the document back, field for field, with the order of
/// every list and with every absent field absent. It holds of every
/// document in which no category holds a comma.
pub proof fn law_round_trip(d: OpmlView)
    requires
        representable(d),
    ensures
        named(document_tree(d), "opml"@, document_of(document_tree(d))) == Ok::<OpmlView, Failure>(
            d,
        ),
{
    let t = document_tree(d);
    reveal_strlit("head");
    reveal_strlit("body");
    assert("head"@[0] == 'h');
    assert("body"@[0] == 'b');
    lemma_values_single("version"@, d.version, "version"@);
    let both = seq![head_tree(d.head), body_tree(d.body)];
    let first = seq![head_tree(d.head)];
    assert(both.drop_last() =~= first);
    assert(first.drop_last() =~= Seq::<Tree>::empty());
    assert(children_named(first.drop_last(), "head"@) =~= Seq::<Tree>::empty());
    assert(children_named(first.drop_last(), "body"@) =~= Seq::<Tree>::empty());
    assert(children_named(first, "head"@) =~= seq![head_tree(d.head)]);
    assert(children_named(first, "body"@) =~= Seq::<Tree>::empty());
    assert(children_named(both, "head"@) =~= seq![head_tree(d.head)]);
    assert(children_named(both, "body"@) =~= seq![body_tree(d.body)]);
    law_head_round_trip(d.head);
    law_body_round_trip(d.body);
    assert(document_head(t) == Ok::<HeadView, Failure>(d.head));
    assert(document_body(t) == Ok::<BodyView, Failure>(d.body));
}

/// Every document that is read from an element is representable: the
/// round trip holds of everything that reading produces.
pub proof fn law_read_is_representable(t: Tree)
    requires
        document_of(t) is Ok,
    ensures
        representable(document_of(t)->Ok_0),
{
    let body = child_of(t, "body"@)->Ok_0->Some_0;
    law_body_read_is_representable(body);
}

/// The round trip of what was read: a document that was read from an
/// element, written as an element and read again, is the same document.
pub proof fn law_round_trip_of_read(t: Tree)
    requires
        named(t, "opml"@, document_of(t)) is Ok,
    ensures
        ({
            let d = document_of(t)->Ok_0;
            named(document_tree(d), "opml"@, document_of(document_tree(d))) == Ok::<
                OpmlView,
                Failure,
            >(d)
        }),
{
    law_read_is_representable(t);
    law_round_trip(document_of(t)->Ok_0);
}

/// An outline element without a `text` attribute is refused for that, and
/// what is read from an outline element has the text of that attribute:
/// no label is made up.
pub proof fn law_text_is_required(t: Tree)
    ensures
        values_named(t.attributes, "text"@).len() == 0 ==> outline_of(t) == Err::<
            OutlineView,
            Failure,
        >(Failure::MissingField { field: "text"@ }),
        outline_of(t) is Ok ==> attribute_of(t, "text"@) == Ok::<Option<Seq<char>>, Failure>(
            Some(outline_of(t)->Ok_0.text),
        ),
{
}

/// A boolean attribute is `true` or `false`: an outline element whose
/// `isComment` or `isBreakpoint` is any other text is refused, and it is
/// refused for that attribute and that text unless a field in front of it
/// fails.
pub proof fn law_flag_is_true_or_false(t: Tree, value: Seq<char>)
    requires
        value != "true"@,
        value != "false"@,
    ensures
        attribute_of(t, "isComment"@) == Ok::<Option<Seq<char>>, Failure>(Some(value))
            ==> outline_of(t) is Err,
        attribute_of(t, "isBreakpoint"@) == Ok::<Option<Seq<char>>, Failure>(Some(value))
            ==> outline_of(t) is Err,
        attribute_of(t, "isComment"@) == Ok::<Option<Seq<char>>, Failure>(Some(value))
            && attribute_of(t, "text"@) is Ok && attribute_of(t, "text"@)->Ok_0 is Some
            && attribute_of(t, "category"@) is Ok && attribute_of(t, "created"@) is Ok
            ==> outline_of(t) == Err::<OutlineView, Failure>(
            Failure::InvalidValue { field: "isComment"@, value },
        ),
        attribute_of(t, "isBreakpoint"@) == Ok::<Option<Seq<char>>, Failure>(Some(value))
            && attribute_of(t, "text"@) is Ok && attribute_of(t, "text"@)->Ok_0 is Some
            && attribute_of(t, "category"@) is Ok && attribute_of(t, "created"@) is Ok
            && optional_flag(attribute_of(t, "isComment"@), "isComment"@) is Ok ==> outline_of(t)
            == Err::<OutlineView, Failure>(Failure::InvalidValue { field: "isBreakpoint"@, value }),
{
}

/// A field of the head that has no child element is absent in what is read.
pub proof fn law_absent_head_field_is_read_absent(t: Tree)
    requires
        head_of(t) is Ok,
    ensures
        children_named(t.children, "title"@).len() == 0 ==> head_of(t)->Ok_0.title is None,
        children_named(t.children, "dateCreated"@).len() == 0 ==> head_of(t)->Ok_0.date_created
            is None,
        children_named(t.children, "dateModified"@).len() == 0 ==> head_of(t)->Ok_0.date_modified
            is None,
        children_named(t.children, "ownerName"@).len() == 0 ==> head_of(t)->Ok_0.owner_name
            is None,
        children_named(t.children, "ownerEmail"@).len() == 0 ==> head_of(t)->Ok_0.owner_email
            is None,
        children_named(t.children, "expansionState"@).len() == 0 ==> head_of(
            t,
        )->Ok_0.expansion_state.len() == 0,
        children_named(t.children, "vertScrollState"@).len() == 0 ==> head_of(
            t,
        )->Ok_0.vert_scroll_state is None,
        children_named(t.children, "windowTop"@).len() == 0 ==> head_of(t)->Ok_0.window_top
            is None,
        children_named(t.children, "windowLeft"@).len() == 0 ==> head_of(t)->Ok_0.window_left
            is None,
        children_named(t.children, "windowBottom"@).len() == 0 ==> head_of(t)->Ok_0.window_bottom
            is None,
        children_named(t.children, "windowRight"@).len() == 0 ==> head_of(t)->Ok_0.window_right
            is None,
{
}

/// A field of the head that is absent, or a list that is empty, gives no
/// child element when the head is written.
pub proof fn law_absent_head_field_is_not_written(h: HeadView)
    ensures
        h.title is None ==> children_named(head_tree(h).children, "title"@).len() == 0,
        h.date_created is None ==> children_named(head_tree(h).children, "dateCreated"@).len()
            == 0,
        h.date_modified is None ==> children_named(head_tree(h).children, "dateModified"@).len()
            == 0,
        h.owner_name is None ==> children_named(head_tree(h).children, "ownerName"@).len() == 0,
        h.owner_email is None ==> children_named(head_tree(h).children, "ownerEmail"@).len() == 0,
        h.expansion_state.len() == 0 ==> children_named(
            head_tree(h).children,
            "expansionState"@,
        ).len() == 0,
        h.vert_scroll_state is None ==> children_named(
            head_tree(h).children,
            "vertScrollState"@,
        ).len() == 0,
        h.window_top is None ==> children_named(head_tree(h).children, "windowTop"@).len() == 0,
        h.window_left is None ==> children_named(head_tree(h).children, "windowLeft"@).len() == 0,
        h.window_bottom is None ==> children_named(head_tree(h).children, "windowBottom"@).len()
            == 0,
        h.window_right is None ==> children_named(head_tree(h).children, "windowRight"@).len()
            == 0,
{
    lemma_head_names();
    lemma_head_lookup(h, "title"@);
    lemma_head_lookup(h, "dateCreated"@);
    lemma_head_lookup(h, "dateModified"@);
    lemma_head_lookup(h, "ownerName"@);
    lemma_head_lookup(h, "ownerEmail"@);
    lemma_head_lookup(h, "expansionState"@);
    lemma_head_lookup(h, "vertScrollState"@);
    lemma_head_lookup(h, "windowTop"@);
    lemma_head_lookup(h, "windowLeft"@);
    lemma_head_lookup(h, "windowBottom"@);
    lemma_head_lookup(h, "windowRight"@);
}

/// A field of an outline node that has no attribute is absent in what is read.
pub proof fn law_absent_outline_field_is_read_absent(t: Tree)
    requires
        outline_of(t) is Ok,
    ensures
        values_named(t.attributes, "category"@).len() == 0 ==> outline_of(t)->Ok_0.category.len()
            == 0,
        values_named(t.attributes, "created"@).len() == 0 ==> outline_of(t)->Ok_0.created is None,
        values_named(t.attributes, "isComment"@).len() == 0 ==> outline_of(t)->Ok_0.is_comment
            is None,
        values_named(t.attributes, "isBreakpoint"@).len() == 0 ==> outline_of(
            t,
        )->Ok_0.is_breakpoint is None,
        values_named(t.attributes, "description"@).len() == 0 ==> outline_of(t)->Ok_0.description
            is None,
        values_named(t.attributes, "htmlUrl"@).len() == 0 ==> outline_of(t)->Ok_0.html_url
            is None,
        values_named(t.attributes, "language"@).len() == 0 ==> outline_of(t)->Ok_0.language
            is None,
        values_named(t.attributes, "title"@).len() == 0 ==> outline_of(t)->Ok_0.title is None,
        values_named(t.attributes, "type"@).len() == 0 ==> outline_of(t)->Ok_0.ty is None,
        values_named(t.attributes, "version"@).len() == 0 ==> outline_of(t)->Ok_0.version is None,
        values_named(t.attributes, "xmlUrl"@).len() == 0 ==> outline_of(t)->Ok_0.xml_url is None,
        values_named(t.attributes, "url"@).len() == 0 ==> outline_of(t)->Ok_0.url is None,
{
}

/// A field of an outline node that is absent, or a list that is empty,
/// gives no attribute when the node is written.
pub proof fn law_absent_outline_field_is_not_written(o: OutlineView)
    ensures
        o.category.len() == 0 ==> values_named(outline_tree(o).attributes, "category"@).len() == 0,
        o.created is None ==> values_named(outline_tree(o).attributes, "created"@).len() == 0,
        o.is_comment is None ==> values_named(outline_tree(o).attributes, "isComment"@).len()
            == 0,
        o.is_breakpoint is None ==> values_named(
            outline_tree(o).attributes,
            "isBreakpoint"@,
        ).len() == 0,
        o.description is None ==> values_named(outline_tree(o).attributes, "description"@).len()
            == 0,
        o.html_url is None ==> values_named(outline_tree(o).attributes, "htmlUrl"@).len() == 0,
        o.language is None ==> values_named(outline_tree(o).attributes, "language"@).len() == 0,
        o.title is None ==> values_named(outline_tree(o).attributes, "title"@).len() == 0,
        o.ty is None ==> values_named(outline_tree(o).attributes, "type"@).len() == 0,
        o.version is None ==> values_named(outline_tree(o).attributes, "version"@).len() == 0,
        o.xml_url is None ==> values_named(outline_tree(o).attributes, "xmlUrl"@).len() == 0,
        o.url is None ==> values_named(outline_tree(o).attributes, "url"@).len() == 0,
{
    lemma_outline_tree(o);
    lemma_outline_names();
    lemma_outline_lookup(o, "category"@);
    lemma_outline_lookup(o, "created"@);
    lemma_outline_lookup(o, "isComment"@);
    lemma_outline_lookup(o, "isBreakpoint"@);
    lemma_outline_lookup(o, "description"@);
    lemma_outline_lookup(o, "htmlUrl"@);
    lemma_outline_lookup(o, "language"@);
    lemma_outline_lookup(o, "title"@);
    lemma_outline_lookup(o, "type"@);
    lemma_outline_lookup(o, "version"@);
    lemma_outline_lookup(o, "xmlUrl"@);
    lemma_outline_lookup(o, "url"@);
}

/// What two runs of tokens do, one after the other.
proof fn lemma_nested_concat(p: Progress, a: Seq<TokenView>, b: Seq<TokenView>, max_depth: usize)
    ensures
        nested_from(p, a + b, max_depth) == (match nested_from(p, a, max_depth) {
            Ok(q) => nested_from(q, b, max_depth),
            Err(f) => Err(f),
        }),
    decreases b.len(),
{
    if b.len() == 0 {
        assert(a + b =~= a);
    } else {
        assert((a + b).drop_last() =~= a + b.drop_last());
        assert((a + b).last() == b.last());
        lemma_nested_concat(p, a, b.drop_last(), max_depth);
    }
}

/// What one token does.
proof fn lemma_nested_single(p: Progress, token: TokenView, max_depth: usize)
    ensures
        nested_from(p, seq![token], max_depth) == advanced(p, token, max_depth),
{
    assert(seq![token].drop_last() =~= Seq::<TokenView>::empty());
    assert(nested_from(p, Seq::<TokenView>::empty(), max_depth) == Ok::<Progress, Failure>(p));
}

/// An element with more children behind the children it has.
pub open spec fn with_children(parent: Tree, children: Seq<Tree>) -> Tree {
    Tree {
        name: parent.name,
        attributes: parent.attributes,
        text: parent.text,
        children: parent.children + children,
    }
}

/// The tokens of some elements put the elements into the innermost open
/// element, in order.
proof fn lemma_place_children(q: Progress, children: Seq<Tree>, n: nat, max_depth: usize)
    requires
        q.open.len() > 0,
        n <= children.len(),
        q.open.len() + height_all(children, n) <= max_depth,
    ensures
        nested_from(q, flattened_all(children, n), max_depth) == Ok::<Progress, Failure>(
            Progress {
                open: q.open.drop_last().push(
                    with_children(q.open.last(), children.take(n as int)),
                ),
                root: q.root,
            },
        ),
    decreases children, n,
{
    if n == 0 {
        assert(children.take(0) =~= Seq::empty());
        assert(with_children(q.open.last(), children.take(0)).children =~= q.open.last().children);
        assert(q.open.drop_last().push(q.open.last()) =~= q.open);
    } else {
        let front = flattened_all(children, (n - 1) as nat);
        let child = children[n - 1];
        lemma_place_children(q, children, (n - 1) as nat, max_depth);
        let mid = Progress {
            open: q.open.drop_last().push(
                with_children(q.open.last(), children.take(n - 1)),
            ),
            root: q.root,
        };
        lemma_place_tree(mid, child, max_depth);
        lemma_nested_concat(q, front, flattened(child), max_depth);
        assert(mid.open.drop_last() =~= q.open.drop_last());
        assert(children.take(n - 1).push(child) =~= children.take(n as int));
        assert(with_child(mid.open.last(), child).children =~= with_children(
            q.open.last(),
            children.take(n as int),
        ).children);
    }
}

/// The tokens of an element put the element where it belongs.
proof fn lemma_place_tree(p: Progress, t: Tree, max_depth: usize)
    requires
        p.open.len() + height(t) <= max_depth,
        p.open.len() > 0 || p.root is None,
    ensures
        nested_from(p, flattened(t), max_depth) == Ok::<Progress, Failure>(
            placed(p.open, p.root, t),
        ),
    decreases t, 0nat,
{
    let opening = seq![TokenView::Open { name: t.name, attributes: t.attributes, closed: false }];
    let data = text_tokens(t.text);
    let inside = flattened_all(t.children, t.children.len());
    let closing = seq![TokenView::Close { name: t.name }];
    let empty_element = bare(t.name, t.attributes);
    let q1 = Progress { open: p.open.push(empty_element), root: p.root };
    lemma_nested_single(p, opening[0], max_depth);
    assert(nested_from(p, opening, max_depth) == Ok::<Progress, Failure>(q1));
    let with_data = Tree {
        name: t.name,
        attributes: t.attributes,
        text: t.text,
        children: Seq::empty(),
    };
    let q2 = Progress { open: p.open.push(with_data), root: p.root };
    lemma_nested_concat(p, opening, data, max_depth);
    if t.text.len() == 0 {
        assert(t.text =~= Seq::<char>::empty());
        assert(nested_from(q1, data, max_depth) == Ok::<Progress, Failure>(q2));
    } else {
        lemma_nested_single(q1, data[0], max_depth);
        assert(q1.open.drop_last() =~= p.open);
        assert(with_text(empty_element, t.text).text =~= t.text);
        assert(nested_from(q1, data, max_depth) == Ok::<Progress, Failure>(q2));
    }
    assert(nested_from(p, opening + data, max_depth) == Ok::<Progress, Failure>(q2));
    lemma_place_children(q2, t.children, t.children.len(), max_depth);
    lemma_nested_concat(p, opening + data, inside, max_depth);
    assert(q2.open.drop_last() =~= p.open);
    assert(t.children.take(t.children.len() as int) =~= t.children);
    assert(with_children(with_data, t.children).children =~= t.children);
    assert(with_children(with_data, t.children) == t);
    let q3 = Progress { open: p.open.push(t), root: p.root };
    assert(nested_from(p, opening + data + inside, max_depth) == Ok::<Progress, Failure>(q3));
    lemma_nested_concat(p, opening + data + inside, closing, max_depth);
    lemma_nested_single(q3, closing[0], max_depth);
    assert(q3.open.drop_last() =~= p.open);
}

/// The tokens of some elements, one of which nests too deeply for the
/// room that is left, fail for the depth.
proof fn lemma_children_too_deep(q: Progress, children: Seq<Tree>, n: nat, max_depth: usize)
    requires
        0 < q.open.len() <= max_depth,
        n <= children.len(),
        q.open.len() + height_all(children, n) > max_depth,
    ensures
        nested_from(q, flattened_all(children, n), max_depth) == Err::<Progress, Failure>(
            Failure::DepthExceeded { limit: max_depth },
        ),
    decreases children, n,
{
    if n > 0 {
        let front = flattened_all(children, (n - 1) as nat);
        let child = children[n - 1];
        lemma_nested_concat(q, front, flattened(child), max_depth);
        if q.open.len() + height_all(children, (n - 1) as nat) > max_depth {
            lemma_children_too_deep(q, children, (n - 1) as nat, max_depth);
        } else {
            lemma_place_children(q, children, (n - 1) as nat, max_depth);
            let mid = Progress {
                open: q.open.drop_last().push(
                    with_children(q.open.last(), children.take(n - 1)),
                ),
                root: q.root,
            };
            lemma_tree_too_deep(mid, child, max_depth);
        }
    }
}

/// The tokens of an element that nests too deeply for the room that is
/// left fail for the depth.
proof fn lemma_tree_too_deep(p: Progress, t: Tree, max_depth: usize)
    requires
        p.open.len() <= max_depth,
        p.open.len() + height(t) > max_depth,
        p.open.len() > 0 || p.root is None,
    ensures
        nested_from(p, flattened(t), max_depth) == Err::<Progress, Failure>(
            Failure::DepthExceeded { limit: max_depth },
        ),
    decreases t, 0nat,
{
    let opening = seq![TokenView::Open { name: t.name, attributes: t.attributes, closed: false }];
    let data = text_tokens(t.text);
    let inside = flattened_all(t.children, t.children.len());
    let closing = seq![TokenView::Close { name: t.name }];
    let empty_element = bare(t.name, t.attributes);
    lemma_nested_single(p, opening[0], max_depth);
    lemma_nested_concat(p, opening, data, max_depth);
    lemma_nested_concat(p, opening + data, inside, max_depth);
    lemma_nested_concat(p, opening + data + inside, closing, max_depth);
    if p.open.len() < max_depth {
        let q1 = Progress { open: p.open.push(empty_element), root: p.root };
        let with_data = Tree {
            name: t.name,
            attributes: t.attributes,
            text: t.text,
            children: Seq::empty(),
        };
        let q2 = Progress { open: p.open.push(with_data), root: p.root };
        if t.text.len() == 0 {
            assert(t.text =~= Seq::<char>::empty());
            assert(nested_from(q1, data, max_depth) == Ok::<Progress, Failure>(q2));
        } else {
            lemma_nested_single(q1, data[0], max_depth);
            assert(q1.open.drop_last() =~= p.open);
            assert(with_text(empty_element, t.text).text =~= t.text);
            assert(nested_from(q1, data, max_depth) == Ok::<Progress, Failure>(q2));
        }
        lemma_children_too_deep(q2, t.children, t.children.len(), max_depth);
    }
}

/// Nesting the tokens of an element gives the element back, where the
/// element nests no more deeply than the limit, and fails for the depth
/// where it nests more deeply.
pub proof fn law_tokens_round_trip(t: Tree, max_depth: usize)
    ensures
        height(t) <= max_depth ==> tree_of_tokens(flattened(t), max_depth) == Ok::<Tree, Failure>(
            t,
        ),
        height(t) > max_depth ==> tree_of_tokens(flattened(t), max_depth) == Err::<Tree, Failure>(
            Failure::DepthExceeded { limit: max_depth },
        ),
{
    if height(t) <= max_depth {
        lemma_place_tree(start(), t, max_depth);
    } else {
        lemma_tree_too_deep(start(), t, max_depth);
    }
}

/// The depth of some outline nodes rests on the nodes alone.
proof fn lemma_outlines_depth_same(a: Seq<OutlineView>, b: Seq<OutlineView>, n: nat)
    requires
        n <= a.len(),
        n <= b.len(),
        forall|i: int| 0 <= i < n ==> a[i] == b[i],
    ensures
        outlines_depth(a, n) == outlines_depth(b, n),
    decreases n,
{
    if n > 0 {
        lemma_outlines_depth_same(a, b, (n - 1) as nat);
    }
}

/// The outline nodes that are read from some elements nest no more deeply
/// than the elements.
proof fn lemma_outlines_depth(children: Seq<Tree>, n: nat)
    requires
        outlines_of(children, n) is Ok,
    ensures
        ({
            let outlines = outlines_of(children, n)->Ok_0;
            outlines_depth(outlines, outlines.len()) <= height_all(children, n)
        }),
    decreases children, n,
{
    if 0 < n <= children.len() {
        let front = outlines_of(children, (n - 1) as nat)->Ok_0;
        lemma_outlines_depth(children, (n - 1) as nat);
        if children[n - 1].name == "outline"@ {
            let outline = outline_of(children[n - 1])->Ok_0;
            law_outline_depth(children[n - 1]);
            lemma_outlines_depth_same(front, front.push(outline), front.len());
        }
    }
}

/// An outline node that is read from an element nests no more deeply than
/// the element.
pub proof fn law_outline_depth(t: Tree)
    requires
        outline_of(t) is Ok,
    ensures
        outline_depth(outline_of(t)->Ok_0) <= height(t),
    decreases t, 1nat,
{
    lemma_outlines_depth(t.children, t.children.len());
}

/// No element is higher than the elements it is among.
proof fn lemma_height_among(children: Seq<Tree>, n: nat, i: int)
    requires
        0 <= i < n <= children.len(),
    ensures
        height(children[i]) <= height_all(children, n),
    decreases n,
{
    if i < n - 1 {
        lemma_height_among(children, (n - 1) as nat, i);
    }
}

/// A child that is found by its name is no higher than the children.
proof fn lemma_named_child_height(children: Seq<Tree>, name: Seq<char>, k: int)
    requires
        0 <= k < children_named(children, name).len(),
    ensures
        height(children_named(children, name)[k]) <= height_all(children, children.len()),
    decreases children.len(),
{
    let found = children_named(children, name);
    let front = children.drop_last();
    lemma_height_all_same(children, front, front.len());
    if children.last().name == name && k == found.len() - 1 {
        lemma_height_among(children, children.len(), children.len() - 1);
    } else {
        lemma_named_child_height(front, name, k);
    }
}

/// The outline nodes of a document that is read from an element nest less
/// deeply than the element, by two: the element of the document and the
/// element of its body stand above them.
pub proof fn law_document_depth(t: Tree)
    requires
        document_of(t) is Ok,
    ensures
        ({
            let outlines = document_of(t)->Ok_0.body.outlines;
            outlines_depth(outlines, outlines.len()) + 2 <= height(t)
        }),
{
    let body = child_of(t, "body"@)->Ok_0->Some_0;
    lemma_named_child_height(t.children, "body"@, 0);
    lemma_outlines_depth(body.children, body.children.len());
}

/// Whether the XML parser reads back the element whose text the XML writer
/// wrote.
pub open spec fn read_back(t: Tree, max_depth: usize) -> bool {
    tree_of_text(rendered(t), max_depth) == Ok::<Tree, Failure>(t)
}

/// The round trip through text. Where the XML parser reads back the
/// element that the XML writer wrote for a document, decoding the text of
/// the document gives the document back.
pub proof fn law_text_round_trip(d: OpmlView, max_depth: usize)
    requires
        representable(d),
    ensures
        read_back(document_tree(d), max_depth) ==> document_of_text(
            rendered(document_tree(d)),
            max_depth,
        ) == Ok::<OpmlView, Failure>(d),
{
    law_round_trip(d);
}

/// The round trip of what was decoded. Where the XML parser reads back the
/// element that the XML writer wrote for it, a document that was decoded
/// from a text, encoded and decoded again, is the same document.
pub proof fn law_text_round_trip_of_decoded(text: Seq<char>, max_depth: usize)
    requires
        document_of_text(text, max_depth) is Ok,
    ensures
        ({
            let d = document_of_text(text, max_depth)->Ok_0;
            read_back(document_tree(d), max_depth) ==> document_of_text(
                rendered(document_tree(d)),
                max_depth,
            ) == Ok::<OpmlView, Failure>(d)
        }),
{
    let t = tree_of_text(text, max_depth)->Ok_0;
    law_read_is_representable(t);
    law_text_round_trip(document_of(t)->Ok_0, max_depth);
}

} // verus!
