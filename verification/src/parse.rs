//! From XML text to an element tree.
//!
//! The parser's events become tokens: an opening tag with its name and
//! attributes, a closing tag, a run of character data. Comments,
//! declarations, processing instructions and document types are passed
//! over. The tokens are then nested into one tree.

use crate::error::{outcome, DecodeError, Failure};
use crate::text::{split_word, word_end};
use crate::tree::{
    attributes_view, elements_view, height, lemma_element_view, lemma_height_all_same, Attribute,
    Element, Tree,
};
use crate::xml::{
    character_data, line_ends_normalized, open_reader, parse_attributes, pending, read_event,
    unescape, xml_attributes, xml_events, xml_unescaped, EventKind, EventView, FaultView,
    XmlEvent,
};
use vstd::prelude::*;

verus! {

/// A piece of markup or of character data.
#[derive(Debug, PartialEq)]
pub enum Token {
    /// An opening tag. `closed` says that the tag closes its element too.
    Open { name: String, attributes: Vec<Attribute>, closed: bool },
    /// A closing tag.
    Close { name: String },
    /// Character data, with every reference resolved.
    Text { text: String },
}

/// A token as a mathematical value.
pub enum TokenView {
    Open { name: Seq<char>, attributes: Seq<(Seq<char>, Seq<char>)>, closed: bool },
    Close { name: Seq<char> },
    Text { text: Seq<char> },
}

impl View for Token {
    type V = TokenView;

    open spec fn view(&self) -> TokenView {
        match self {
            Token::Open { name, attributes, closed } => TokenView::Open {
                name: name@,
                attributes: attributes_view(attributes@),
                closed: *closed,
            },
            Token::Close { name } => TokenView::Close { name: name@ },
            Token::Text { text } => TokenView::Text { text: text@ },
        }
    }
}

impl DeepView for Token {
    type V = TokenView;

    open spec fn deep_view(&self) -> TokenView {
        self@
    }
}

/// The failure that stands for a message of the XML parser.
pub open spec fn xml_failure(message: Seq<char>, position: Option<u64>) -> Failure {
    Failure::Xml { message, position }
}

/// The token that an event stands for; none for an event that is passed over.
pub open spec fn token_of(event: EventView) -> Result<Option<TokenView>, Failure> {
    match event.kind {
        EventKind::Start | EventKind::Empty => {
            let end = word_end(event.content);
            match xml_attributes(event.content.skip(end)) {
                Ok(attributes) => Ok(
                    Some(
                        TokenView::Open {
                            name: event.content.take(end),
                            attributes,
                            closed: event.kind == EventKind::Empty,
                        },
                    ),
                ),
                Err(message) => Err(xml_failure(message, None)),
            }
        },
        EventKind::End => Ok(Some(TokenView::Close { name: event.content })),
        EventKind::Text | EventKind::CData => Ok(
            Some(TokenView::Text { text: line_ends_normalized(event.content) }),
        ),
        EventKind::Reference => match xml_unescaped(seq!['&'] + event.content + seq![';']) {
            Ok(text) => Ok(Some(TokenView::Text { text })),
            Err(message) => Err(xml_failure(message, None)),
        },
        EventKind::Other | EventKind::Eof => Ok(None),
    }
}

/// A token, where there is one, in front of the tokens that follow.
pub open spec fn with_token(token: Option<TokenView>, rest: Seq<TokenView>) -> Seq<TokenView> {
    match token {
        Some(t) => seq![t] + rest,
        None => rest,
    }
}

/// The tokens that the steps of a parser stand for, up to the end of the
/// text, or the first failure.
pub open spec fn tokens_of(steps: Seq<Result<EventView, FaultView>>) -> Result<
    Seq<TokenView>,
    Failure,
>
    decreases steps.len(),
{
    if steps.len() == 0 {
        Ok(Seq::empty())
    } else {
        match steps[0] {
            Err(fault) => Err(xml_failure(fault.message, Some(fault.position))),
            Ok(event) => if event.kind == EventKind::Eof {
                Ok(Seq::empty())
            } else {
                match token_of(event) {
                    Err(f) => Err(f),
                    Ok(token) => match tokens_of(steps.drop_first()) {
                        Err(f) => Err(f),
                        Ok(rest) => Ok(with_token(token, rest)),
                    },
                }
            },
        }
    }
}

/// The tokens read so far in front of what the rest of the steps gives.
pub open spec fn continued(front: Seq<TokenView>, rest: Result<Seq<TokenView>, Failure>) -> Result<
    Seq<TokenView>,
    Failure,
> {
    match rest {
        Ok(tokens) => Ok(front + tokens),
        Err(f) => Err(f),
    }
}

/// The token that an event stands for.
pub fn token_from_event(event: XmlEvent) -> (r: Result<Option<Token>, DecodeError>)
    ensures
        outcome(r) == token_of(event@),
{
    match event.kind {
        EventKind::Start | EventKind::Empty => {
            let (name, rest) = split_word(event.content.as_str());
            match parse_attributes(rest) {
                Ok(attributes) => Ok(
                    Some(
                        Token::Open {
                            name: name.to_owned(),
                            attributes,
                            closed: event.kind == EventKind::Empty,
                        },
                    ),
                ),
                Err(message) => Err(DecodeError::Xml { message, position: None }),
            }
        },
        EventKind::End => Ok(Some(Token::Close { name: event.content })),
        EventKind::Text | EventKind::CData => Ok(
            Some(Token::Text { text: character_data(event.content.as_str()) }),
        ),
        EventKind::Reference => {
            proof {
                reveal_strlit("&");
                reveal_strlit(";");
            }
            let mut raw = "&".to_owned();
            raw.append(event.content.as_str());
            raw.append(";");
            assert(raw@ =~= seq!['&'] + event.content@ + seq![';']);
            match unescape(raw.as_str()) {
                Ok(text) => Ok(Some(Token::Text { text })),
                Err(message) => Err(DecodeError::Xml { message, position: None }),
            }
        },
        EventKind::Other | EventKind::Eof => Ok(None),
    }
}

/// Reads the tokens of a text.
pub fn tokens(text: &str) -> (r: Result<Vec<Token>, DecodeError>)
    ensures
        outcome(r) == tokens_of(xml_events(text@)),
{
    let mut reader = open_reader(text);
    let mut out: Vec<Token> = Vec::new();
    loop
        invariant
            tokens_of(xml_events(text@)) == continued(
                out.deep_view(),
                tokens_of(pending(reader)),
            ),
        decreases pending(reader).len(),
    {
        let ghost front = out.deep_view();
        match read_event(&mut reader) {
            Err(fault) => {
                return Err(
                    DecodeError::Xml { message: fault.message, position: Some(fault.position) },
                );
            },
            Ok(event) => {
                if event.kind == EventKind::Eof {
                    return Ok(out);
                }
                match token_from_event(event) {
                    Err(e) => {
                        return Err(e);
                    },
                    Ok(Some(token)) => {
                        out.push(token);
                        assert(out.deep_view() =~= front.push(token@));
                        assert(forall|rest: Seq<TokenView>|
                            front + (seq![token@] + rest) =~= front.push(token@) + rest);
                    },
                    Ok(None) => {},
                }
            },
        }
    }
}

/// How far the nesting of tokens has come: the elements that are open,
/// the outermost first, and the outermost element once it is closed.
pub struct Progress {
    pub open: Seq<Tree>,
    pub root: Option<Tree>,
}

/// An element with a name and attributes and nothing inside.
pub open spec fn bare(name: Seq<char>, attributes: Seq<(Seq<char>, Seq<char>)>) -> Tree {
    Tree { name, attributes, text: Seq::empty(), children: Seq::empty() }
}

/// An element with one more child behind the children it has.
pub open spec fn with_child(parent: Tree, child: Tree) -> Tree {
    Tree {
        name: parent.name,
        attributes: parent.attributes,
        text: parent.text,
        children: parent.children.push(child),
    }
}

/// An element with more character data behind the data it has.
pub open spec fn with_text(parent: Tree, text: Seq<char>) -> Tree {
    Tree {
        name: parent.name,
        attributes: parent.attributes,
        text: parent.text + text,
        children: parent.children,
    }
}

/// A complete element is put where it belongs: into the innermost open
/// element as its last child, or, where none is open, it is the root.
pub open spec fn placed(open: Seq<Tree>, root: Option<Tree>, element: Tree) -> Progress {
    if open.len() == 0 {
        Progress { open, root: Some(element) }
    } else {
        Progress { open: open.drop_last().push(with_child(open.last(), element)), root }
    }
}

/// What one token does. An opening tag is a failure behind a complete
/// root and at the limit of nesting; a closing tag is a failure unless it
/// names the innermost open element. Character data outside every element
/// is passed over.
pub open spec fn advanced(p: Progress, token: TokenView, max_depth: usize) -> Result<
    Progress,
    Failure,
> {
    match token {
        TokenView::Open { name, attributes, closed } => {
            if p.open.len() == 0 && p.root is Some {
                Err(Failure::ExtraRoot { name })
            } else if p.open.len() >= max_depth {
                Err(Failure::DepthExceeded { limit: max_depth })
            } else if closed {
                Ok(placed(p.open, p.root, bare(name, attributes)))
            } else {
                Ok(Progress { open: p.open.push(bare(name, attributes)), root: p.root })
            }
        },
        TokenView::Close { name } => {
            if p.open.len() == 0 || p.open.last().name != name {
                Err(Failure::UnexpectedClose { name })
            } else {
                Ok(placed(p.open.drop_last(), p.root, p.open.last()))
            }
        },
        TokenView::Text { text } => {
            if p.open.len() == 0 {
                Ok(p)
            } else {
                Ok(
                    Progress {
                        open: p.open.drop_last().push(with_text(p.open.last(), text)),
                        root: p.root,
                    },
                )
            }
        },
    }
}

/// What a run of tokens does, from a given state.
pub open spec fn nested_from(p: Progress, tokens: Seq<TokenView>, max_depth: usize) -> Result<
    Progress,
    Failure,
>
    decreases tokens.len(),
{
    if tokens.len() == 0 {
        Ok(p)
    } else {
        match nested_from(p, tokens.drop_last(), max_depth) {
            Err(f) => Err(f),
            Ok(q) => advanced(q, tokens.last(), max_depth),
        }
    }
}

/// The state before any token: nothing open, no root.
pub open spec fn start() -> Progress {
    Progress { open: Seq::empty(), root: None }
}

/// What a run of tokens does, from nothing.
pub open spec fn nested(tokens: Seq<TokenView>, max_depth: usize) -> Result<Progress, Failure> {
    nested_from(start(), tokens, max_depth)
}

/// The element that a run of tokens makes up: the root, once every token
/// is taken in. It is a failure for an element to be left open and for the
/// tokens to hold no element.
pub open spec fn tree_of_tokens(tokens: Seq<TokenView>, max_depth: usize) -> Result<Tree, Failure> {
    match nested(tokens, max_depth) {
        Err(f) => Err(f),
        Ok(p) => if p.open.len() > 0 {
            Err(Failure::Unclosed { name: p.open.last().name })
        } else {
            match p.root {
                Some(root) => Ok(root),
                None => Err(Failure::NoRoot),
            }
        },
    }
}

/// The element that a text holds.
pub open spec fn tree_of_text(text: Seq<char>, max_depth: usize) -> Result<Tree, Failure> {
    match tokens_of(xml_events(text)) {
        Err(f) => Err(f),
        Ok(tokens) => tree_of_tokens(tokens, max_depth),
    }
}

/// The token for the character data of an element; none for no data.
pub open spec fn text_tokens(text: Seq<char>) -> Seq<TokenView> {
    if text.len() == 0 {
        Seq::empty()
    } else {
        seq![TokenView::Text { text }]
    }
}

/// The tokens that stand for an element: its opening tag, its character
/// data, its children in order, its closing tag.
pub open spec fn flattened(t: Tree) -> Seq<TokenView>
    decreases t, 1nat,
{
    seq![TokenView::Open { name: t.name, attributes: t.attributes, closed: false }] + text_tokens(
        t.text,
    ) + flattened_all(t.children, t.children.len()) + seq![TokenView::Close { name: t.name }]
}

/// The tokens that stand for the first `n` of some elements.
pub open spec fn flattened_all(children: Seq<Tree>, n: nat) -> Seq<TokenView>
    decreases children, n,
{
    if n == 0 || n > children.len() {
        Seq::empty()
    } else {
        flattened_all(children, (n - 1) as nat) + flattened(children[n - 1])
    }
}

/// Once a prefix of the tokens has failed, the whole fails in the same way.
pub proof fn lemma_nested_failure_stays(
    p: Progress,
    tokens: Seq<TokenView>,
    k: int,
    max_depth: usize,
)
    requires
        0 <= k <= tokens.len(),
        nested_from(p, tokens.take(k), max_depth) is Err,
    ensures
        nested_from(p, tokens, max_depth) == nested_from(p, tokens.take(k), max_depth),
    decreases tokens.len() - k,
{
    if k == tokens.len() {
        assert(tokens.take(k) =~= tokens);
    } else {
        assert(tokens.drop_last().take(k) =~= tokens.take(k));
        lemma_nested_failure_stays(p, tokens.drop_last(), k, max_depth);
    }
}

/// An element with one more child is as high as it was, or one higher
/// than the child.
proof fn lemma_height_with_child(parent: Tree, child: Tree)
    ensures
        height(with_child(parent, child)) == if height(parent) >= 1 + height(child) {
            height(parent)
        } else {
            1 + height(child)
        },
{
    let more = parent.children.push(child);
    lemma_height_all_same(parent.children, more, parent.children.len());
}

/// Whether nothing in a state of the nesting reaches below the limit: an
/// open element with what it holds so far, counted from the outermost
/// element, and the root.
pub open spec fn within_depth(p: Progress, max_depth: usize) -> bool {
    &&& forall|i: int| 0 <= i < p.open.len() ==> i + height(#[trigger] p.open[i]) <= max_depth
    &&& p.root is Some ==> height(p.root->Some_0) <= max_depth
}

/// Putting an element of a fitting height where it belongs keeps the state
/// within the limit.
proof fn lemma_placed_within_depth(p: Progress, element: Tree, max_depth: usize)
    requires
        within_depth(p, max_depth),
        p.open.len() + height(element) <= max_depth,
    ensures
        within_depth(placed(p.open, p.root, element), max_depth),
{
    if p.open.len() > 0 {
        let last = p.open.len() - 1;
        let q = placed(p.open, p.root, element);
        lemma_height_with_child(p.open[last], element);
        assert forall|i: int| 0 <= i < q.open.len() implies i + height(#[trigger] q.open[i])
            <= max_depth by {
            if i < last {
                assert(q.open[i] == p.open[i]);
            } else {
                assert(q.open[i] == with_child(p.open[last], element));
            }
        }
    }
}

/// One token keeps the state within the limit.
proof fn lemma_advanced_within_depth(p: Progress, token: TokenView, max_depth: usize)
    requires
        within_depth(p, max_depth),
        advanced(p, token, max_depth) is Ok,
    ensures
        within_depth(advanced(p, token, max_depth)->Ok_0, max_depth),
{
    let q = advanced(p, token, max_depth)->Ok_0;
    match token {
        TokenView::Open { name, attributes, closed } => {
            let element = bare(name, attributes);
            assert(height(element) == 1);
            if closed {
                lemma_placed_within_depth(p, element, max_depth);
            } else {
                assert forall|i: int| 0 <= i < q.open.len() implies i + height(
                    #[trigger] q.open[i],
                ) <= max_depth by {
                    if i < p.open.len() {
                        assert(q.open[i] == p.open[i]);
                    }
                }
            }
        },
        TokenView::Close { name } => {
            let rest = Progress { open: p.open.drop_last(), root: p.root };
            assert forall|i: int| 0 <= i < rest.open.len() implies i + height(
                #[trigger] rest.open[i],
            ) <= max_depth by {
                assert(rest.open[i] == p.open[i]);
            }
            assert(p.open.last() == p.open[p.open.len() - 1]);
            lemma_placed_within_depth(rest, p.open.last(), max_depth);
        },
        TokenView::Text { text } => {
            if p.open.len() > 0 {
                let last = p.open.len() - 1;
                assert(height(with_text(p.open[last], text)) == height(p.open[last]));
                assert forall|i: int| 0 <= i < q.open.len() implies i + height(
                    #[trigger] q.open[i],
                ) <= max_depth by {
                    if i < last {
                        assert(q.open[i] == p.open[i]);
                    }
                }
            }
        },
    }
}

/// A run of tokens keeps the state within the limit.
proof fn lemma_nested_within_depth(p: Progress, tokens: Seq<TokenView>, max_depth: usize)
    requires
        within_depth(p, max_depth),
        nested_from(p, tokens, max_depth) is Ok,
    ensures
        within_depth(nested_from(p, tokens, max_depth)->Ok_0, max_depth),
    decreases tokens.len(),
{
    if tokens.len() > 0 {
        lemma_nested_within_depth(p, tokens.drop_last(), max_depth);
        lemma_advanced_within_depth(
            nested_from(p, tokens.drop_last(), max_depth)->Ok_0,
            tokens.last(),
            max_depth,
        );
    }
}

/// The limit holds: an element that is made of tokens, whatever the
/// tokens, nests no more deeply than the limit.
pub proof fn law_depth_is_bounded(tokens: Seq<TokenView>, max_depth: usize)
    requires
        tree_of_tokens(tokens, max_depth) is Ok,
    ensures
        height(tree_of_tokens(tokens, max_depth)->Ok_0) <= max_depth,
{
    lemma_nested_within_depth(start(), tokens, max_depth);
}

/// The progress that the working state of `build_tree` stands for.
pub open spec fn progress_of(open: Vec<Element>, root: Option<Element>) -> Progress {
    Progress { open: elements_view(open@), root: root.deep_view() }
}

/// Puts a complete element where it belongs.
fn place(open: &mut Vec<Element>, root: &mut Option<Element>, element: Element)
    ensures
        progress_of(*final(open), *final(root)) == placed(
            elements_view(old(open)@),
            old(root).deep_view(),
            element@,
        ),
{
    match open.pop() {
        None => {
            *root = Some(element);
        },
        Some(parent) => {
            let ghost rest = elements_view(open@);
            let ghost before = parent@;
            proof {
                lemma_element_view(parent);
            }
            let mut parent = parent;
            parent.children.push(element);
            proof {
                lemma_element_view(parent);
                assert(parent@.children =~= before.children.push(element@));
                assert(rest =~= elements_view(old(open)@).drop_last());
            }
            open.push(parent);
            assert(elements_view(open@) =~= rest.push(with_child(before, element@)));
        },
    }
}

/// Takes one token in.
fn advance(open: &mut Vec<Element>, root: &mut Option<Element>, token: Token, max_depth: usize) -> (r:
    Result<(), DecodeError>)
    ensures
        match advanced(progress_of(*old(open), *old(root)), token@, max_depth) {
            Ok(p) => r is Ok && progress_of(*final(open), *final(root)) == p,
            Err(f) => r is Err && r->Err_0@ == f,
        },
{
    match token {
        Token::Open { name, attributes, closed } => {
            if open.len() == 0 && root.is_some() {
                return Err(DecodeError::ExtraRoot { name });
            }
            if open.len() >= max_depth {
                return Err(DecodeError::DepthExceeded { limit: max_depth });
            }
            let element = Element { name, attributes, text: String::new(), children: Vec::new() };
            proof {
                lemma_element_view(element);
                assert(element@.children =~= Seq::empty());
            }
            if closed {
                place(open, root, element);
            } else {
                let ghost before = elements_view(open@);
                open.push(element);
                assert(elements_view(open@) =~= before.push(element@));
            }
            Ok(())
        },
        Token::Close { name } => {
            let ghost before = elements_view(open@);
            match open.pop() {
                None => Err(DecodeError::UnexpectedClose { name }),
                Some(element) => {
                    proof {
                        lemma_element_view(element);
                        assert(elements_view(open@) =~= before.drop_last());
                    }
                    if element.name != name {
                        return Err(DecodeError::UnexpectedClose { name });
                    }
                    place(open, root, element);
                    Ok(())
                },
            }
        },
        Token::Text { text } => {
            let ghost before = elements_view(open@);
            match open.pop() {
                None => {
                    Ok(())
                },
                Some(element) => {
                    let ghost was = element@;
                    proof {
                        lemma_element_view(element);
                        assert(elements_view(open@) =~= before.drop_last());
                    }
                    let mut element = element;
                    element.text.append(text.as_str());
                    proof {
                        lemma_element_view(element);
                    }
                    let ghost rest = elements_view(open@);
                    open.push(element);
                    assert(elements_view(open@) =~= rest.push(with_text(was, text@)));
                    Ok(())
                },
            }
        },
    }
}

/// Nests a run of tokens into one element. `max_depth` is the number of
/// elements that may be open at once.
pub fn build_tree(tokens: Vec<Token>, max_depth: usize) -> (r: Result<Element, DecodeError>)
    ensures
        outcome(r) == tree_of_tokens(tokens.deep_view(), max_depth),
        r matches Ok(element) ==> height(element@) <= max_depth,
{
    proof {
        if tree_of_tokens(tokens.deep_view(), max_depth) is Ok {
            law_depth_is_bounded(tokens.deep_view(), max_depth);
        }
    }
    let mut open: Vec<Element> = Vec::new();
    let mut root: Option<Element> = None;
    let ghost all = tokens.deep_view();
    proof {
        assert(elements_view(open@) =~= Seq::empty());
    }
    for token in it: tokens
        invariant
            all == tokens.deep_view(),
            nested(all.take(it.index() as int), max_depth) == Ok::<Progress, Failure>(
                progress_of(open, root),
            ),
    {
        proof {
            let next = all.take(it.index() + 1);
            assert(next.drop_last() =~= all.take(it.index() as int));
        }
        match advance(&mut open, &mut root, token, max_depth) {
            Ok(()) => {},
            Err(e) => {
                proof {
                    lemma_nested_failure_stays(start(), all, it.index() + 1, max_depth);
                }
                return Err(e);
            },
        }
    }
    assert(all.take(all.len() as int) =~= all);
    match open.pop() {
        Some(element) => {
            proof {
                lemma_element_view(element);
            }
            Err(DecodeError::Unclosed { name: element.name })
        },
        None => match root {
            Some(element) => Ok(element),
            None => Err(DecodeError::NoRoot),
        },
    }
}

/// Reads the element that a text holds.
pub fn parse(text: &str, max_depth: usize) -> (r: Result<Element, DecodeError>)
    ensures
        outcome(r) == tree_of_text(text@, max_depth),
        r matches Ok(element) ==> height(element@) <= max_depth,
{
    match tokens(text) {
        Ok(tokens) => build_tree(tokens, max_depth),
        Err(e) => Err(e),
    }
}

} // verus!
