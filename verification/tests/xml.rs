use opml_codec::parse::{build_tree, parse, token_from_event, tokens, Token};
use opml_codec::render::render;
use opml_codec::xml::{EventKind, XmlEvent};
use opml_codec::{Attribute, DecodeError, Element, Head, Outline};

fn attribute(name: &str, value: &str) -> Attribute {
    Attribute { name: name.to_string(), value: value.to_string() }
}

fn event(kind: EventKind, content: &str) -> XmlEvent {
    XmlEvent { kind, content: content.to_string() }
}

#[test]
fn tokens_of_a_small_text() {
    let found = tokens("<?xml version=\"1.0\"?><a x=\"1\" y='2'>t<!-- c --><b/>u</a>").unwrap();
    assert_eq!(
        found,
        vec![
            Token::Open {
                name: "a".to_string(),
                attributes: vec![attribute("x", "1"), attribute("y", "2")],
                closed: false
            },
            Token::Text { text: "t".to_string() },
            Token::Open { name: "b".to_string(), attributes: vec![], closed: true },
            Token::Text { text: "u".to_string() },
            Token::Close { name: "a".to_string() },
        ]
    );
}

#[test]
fn tokens_stop_at_the_first_failure() {
    match tokens("<a><b></a><c") {
        Err(DecodeError::Xml { position, .. }) => assert_eq!(position, Some(6)),
        other => panic!("{:?}", other),
    }
}

#[test]
fn events_become_tokens() {
    assert_eq!(
        token_from_event(event(EventKind::Start, "outline text=\"a &amp; b\"  type = 'x'")),
        Ok(Some(Token::Open {
            name: "outline".to_string(),
            attributes: vec![attribute("text", "a & b"), attribute("type", "x")],
            closed: false
        }))
    );
    assert_eq!(
        token_from_event(event(EventKind::Empty, "br")),
        Ok(Some(Token::Open { name: "br".to_string(), attributes: vec![], closed: true }))
    );
    assert_eq!(
        token_from_event(event(EventKind::End, "outline")),
        Ok(Some(Token::Close { name: "outline".to_string() }))
    );
    assert_eq!(
        token_from_event(event(EventKind::Text, "a\r\nb\rc")),
        Ok(Some(Token::Text { text: "a\nb\nc".to_string() }))
    );
    assert_eq!(
        token_from_event(event(EventKind::CData, "<x> & y")),
        Ok(Some(Token::Text { text: "<x> & y".to_string() }))
    );
    assert_eq!(
        token_from_event(event(EventKind::Reference, "lt")),
        Ok(Some(Token::Text { text: "<".to_string() }))
    );
    assert_eq!(
        token_from_event(event(EventKind::Reference, "#x41")),
        Ok(Some(Token::Text { text: "A".to_string() }))
    );
    assert_eq!(
        token_from_event(event(EventKind::Reference, "#233")),
        Ok(Some(Token::Text { text: "é".to_string() }))
    );
    assert_eq!(token_from_event(event(EventKind::Other, " a comment ")), Ok(None));
    assert_eq!(token_from_event(event(EventKind::Eof, "")), Ok(None));
    assert!(matches!(
        token_from_event(event(EventKind::Reference, "nbsp")),
        Err(DecodeError::Xml { position: None, .. })
    ));
    assert!(matches!(
        token_from_event(event(EventKind::Start, "a b")),
        Err(DecodeError::Xml { position: None, .. })
    ));
}

#[test]
fn tokens_are_nested_into_a_tree() {
    let tree = build_tree(
        vec![
            Token::Text { text: "before".to_string() },
            Token::Open { name: "a".to_string(), attributes: vec![attribute("k", "v")], closed: false },
            Token::Text { text: "one ".to_string() },
            Token::Open { name: "b".to_string(), attributes: vec![], closed: true },
            Token::Text { text: "two".to_string() },
            Token::Open { name: "c".to_string(), attributes: vec![], closed: false },
            Token::Text { text: "inner".to_string() },
            Token::Close { name: "c".to_string() },
            Token::Close { name: "a".to_string() },
            Token::Text { text: "after".to_string() },
        ],
        2,
    )
    .unwrap();
    let mut c = Element::new("c");
    c.text = "inner".to_string();
    let expected = Element {
        name: "a".to_string(),
        attributes: vec![attribute("k", "v")],
        text: "one two".to_string(),
        children: vec![Element::new("b"), c],
    };
    assert_eq!(tree, expected);
}

#[test]
fn parsing_reads_character_data() {
    let tree = parse("<t>a &lt; b<![CDATA[ & <c> ]]>&#33;\r\n</t>", 4).unwrap();
    assert_eq!(tree.text, "a < b & <c> !\n");
    assert_eq!(tree.name, "t");
    assert!(tree.children.is_empty());
}

#[test]
fn parsing_reads_attribute_values() {
    let tree = parse("<t a=\"x&amp;y&quot;\" b='it&apos;s &#60;' c=\"l1\nl2\"/>", 4).unwrap();
    assert_eq!(
        tree.attributes,
        vec![attribute("a", "x&y\""), attribute("b", "it's <"), attribute("c", "l1 l2")]
    );
}

#[test]
fn parsing_passes_over_a_byte_order_mark_and_a_prolog() {
    let tree = parse("\u{feff}<?xml version=\"1.0\"?>\n<!DOCTYPE t>\n<t/>\n", 1).unwrap();
    assert_eq!(tree, Element::new("t"));
}

#[test]
fn rendering_escapes_markup() {
    let mut e = Element::new("t");
    e.attributes.push(attribute("a", "x<y & \"z\"\n"));
    e.text = "1 < 2 & 3 > 2".to_string();
    assert_eq!(
        render(&e),
        "<t a=\"x&lt;y &amp; &quot;z&quot;&#10;\">1 &lt; 2 &amp; 3 &gt; 2</t>"
    );
}

#[test]
fn rendering_nests_children_in_order() {
    let mut first = Element::new("b");
    first.text = "x".to_string();
    let mut inner = Element::new("c");
    inner.children.push(Element::new("d"));
    let e = Element {
        name: "a".to_string(),
        attributes: vec![],
        text: String::new(),
        children: vec![first, inner, Element::new("b")],
    };
    assert_eq!(render(&e), "<a><b>x</b><c><d></d></c><b></b></a>");
}

#[test]
fn rendering_and_parsing_are_inverse_on_a_tree() {
    let mut leaf = Element::new("leaf");
    leaf.text = " spaces, <angles> & \"quotes\"\r\n\ttabs ".to_string();
    leaf.attributes.push(attribute("k", "v\r\n\t'1'"));
    let tree = Element {
        name: "root".to_string(),
        attributes: vec![attribute("a", ""), attribute("b", "é")],
        text: String::new(),
        children: vec![leaf, Element::new("empty")],
    };
    assert_eq!(parse(&render(&tree), 2), Ok(tree));
}

#[test]
fn line_ends_in_fields_are_normalized_on_reading() {
    let head = Head::from_xml("<head><title>a\r\nb\rc</title></head>").unwrap();
    assert_eq!(head.title.as_deref(), Some("a\nb\nc"));
    let outline = Outline::from_xml("<outline text=\"a\r\nb\tc\"/>").unwrap();
    assert_eq!(outline.text, "a b c");
}

#[test]
fn element_lookups() {
    let tree = parse("<a x='1' y='2'><b>t</b><c/><c/></a>", 2).unwrap();
    assert_eq!(tree.attribute("x"), Ok(Some(&"1".to_string())));
    assert_eq!(tree.attribute("z"), Ok(None));
    assert_eq!(tree.child("b").unwrap().unwrap().text, "t");
    assert_eq!(tree.child("d"), Ok(None));
    assert_eq!(tree.child("c"), Err(DecodeError::DuplicateField { field: "c".to_string() }));
}

fn tokens_of_tree(e: &Element, out: &mut Vec<Token>) {
    out.push(Token::Open {
        name: e.name.clone(),
        attributes: e
            .attributes
            .iter()
            .map(|a| attribute(&a.name, &a.value))
            .collect(),
        closed: false,
    });
    if !e.text.is_empty() {
        out.push(Token::Text { text: e.text.clone() });
    }
    for child in &e.children {
        tokens_of_tree(child, out);
    }
    out.push(Token::Close { name: e.name.clone() });
}

#[test]
fn the_tokens_of_a_tree_nest_back_into_it() {
    let tree = parse("<a k='v'>t<b><c/><c>u</c></b><d/></a>", 3).unwrap();
    let mut flat = Vec::new();
    tokens_of_tree(&tree, &mut flat);
    assert_eq!(flat.len(), 12);
    let mut again = Vec::new();
    tokens_of_tree(&tree, &mut again);
    assert_eq!(build_tree(flat, 3), Ok(tree));
    assert_eq!(build_tree(again, 2), Err(DecodeError::DepthExceeded { limit: 2 }));
}
