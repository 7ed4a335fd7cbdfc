use opml_codec::parse::{parse, tokens};
use opml_codec::render::render;
use opml_codec::{decode, decode_within, encode, Attribute, Body, Element, Head, Opml, Outline};

struct Dice(u64);

impl Dice {
    fn roll(&mut self, sides: usize) -> usize {
        self.0 = self.0.wrapping_mul(6364136223846793005).wrapping_add(1442695040888963407);
        ((self.0 >> 33) as usize) % sides
    }

    fn pick<'a>(&mut self, from: &[&'a str]) -> &'a str {
        from[self.roll(from.len())]
    }

    fn text(&mut self, from: &[&str], longest: usize) -> String {
        let n = self.roll(longest + 1);
        (0..n).map(|_| self.pick(from)).collect()
    }
}

const MARKUP: [&str; 28] = [
    "<", ">", "/", "&", ";", "\"", "'", "=", " ", "a", "b", "!", "[", "]", "-", "?", "CDATA",
    "opml", "head", "body", "outline", "text", "#", "x", "1", "\n", "\r", "é",
];

const WORDS: [&str; 24] = [
    "a", "B", "z", "0", "9", " ", "  ", "\t", "\n", "\r", "\r\n", "<", ">", "&", "\"", "'", ";",
    "é", "日本", "&amp;", "]]>", "<!--", "=", "/",
];

const PLAIN: [&str; 12] = ["a", "b", " ", "/", "New York", "é", "<", "&", "\"", "\n", ";", "x y"];

#[test]
fn decoding_any_text_returns() {
    let mut dice = Dice(1);
    for _ in 0..20_000 {
        let text = dice.text(&MARKUP, 24);
        let _ = decode(&text);
        let _ = tokens(&text);
    }
}

#[test]
fn decoding_is_a_function_of_the_text() {
    let mut dice = Dice(2);
    for _ in 0..2_000 {
        let text = dice.text(&MARKUP, 24);
        assert_eq!(decode(&text), decode(&text));
        assert_eq!(tokens(&text), tokens(&text));
    }
}

fn any_tree(dice: &mut Dice, depth: usize) -> Element {
    let names = ["a", "b", "outline", "x-y", "n1"];
    let keys = ["k", "text", "type", "xml:lang", "a1"];
    let mut e = Element::new(dice.pick(&names));
    let mut used = Vec::new();
    for _ in 0..dice.roll(4) {
        let key = dice.pick(&keys);
        if !used.contains(&key) {
            used.push(key);
            e.attributes.push(Attribute { name: key.to_string(), value: dice.text(&WORDS, 6) });
        }
    }
    if dice.roll(2) == 0 {
        e.text = dice.text(&WORDS, 6);
    }
    if depth > 1 {
        for _ in 0..dice.roll(4) {
            e.children.push(any_tree(dice, depth - 1));
        }
    }
    e
}

#[test]
fn a_rendered_tree_is_parsed_back() {
    let mut dice = Dice(3);
    for _ in 0..3_000 {
        let tree = any_tree(&mut dice, 4);
        assert_eq!(parse(&render(&tree), 4).as_ref(), Ok(&tree), "{:?}", render(&tree));
    }
}

fn any_text(dice: &mut Dice) -> Option<String> {
    if dice.roll(3) == 0 {
        None
    } else {
        Some(dice.text(&WORDS, 5))
    }
}

fn any_number(dice: &mut Dice) -> Option<i32> {
    match dice.roll(6) {
        0 => None,
        1 => Some(0),
        2 => Some(i32::MIN),
        3 => Some(i32::MAX),
        4 => Some(-(dice.roll(1000) as i32)),
        _ => Some(dice.roll(100_000) as i32),
    }
}

fn any_flag(dice: &mut Dice) -> Option<bool> {
    match dice.roll(3) {
        0 => None,
        1 => Some(false),
        _ => Some(true),
    }
}

fn any_outline(dice: &mut Dice, depth: usize) -> Outline {
    let mut o = Outline::new(&dice.text(&WORDS, 5));
    for _ in 0..dice.roll(4) {
        o.category.push(dice.text(&PLAIN, 4));
    }
    o.created = any_text(dice);
    o.is_comment = any_flag(dice);
    o.is_breakpoint = any_flag(dice);
    o.description = any_text(dice);
    o.html_url = any_text(dice);
    o.language = any_text(dice);
    o.title = any_text(dice);
    o.ty = any_text(dice);
    o.version = any_text(dice);
    o.xml_url = any_text(dice);
    o.url = any_text(dice);
    if depth > 1 {
        for _ in 0..dice.roll(4) {
            o.outlines.push(any_outline(dice, depth - 1));
        }
    }
    o
}

fn any_document(dice: &mut Dice) -> Opml {
    let mut head = Head::new();
    head.title = any_text(dice);
    head.date_created = any_text(dice);
    head.date_modified = any_text(dice);
    head.owner_name = any_text(dice);
    head.owner_email = any_text(dice);
    for _ in 0..dice.roll(5) {
        let n = match dice.roll(3) {
            0 => 0,
            1 => u32::MAX,
            _ => dice.roll(1000) as u32,
        };
        head.expansion_state.push(n);
    }
    head.vert_scroll_state = any_number(dice);
    head.window_top = any_number(dice);
    head.window_left = any_number(dice);
    head.window_bottom = any_number(dice);
    head.window_right = any_number(dice);
    let mut outlines = Vec::new();
    for _ in 0..dice.roll(4) {
        outlines.push(any_outline(dice, 3));
    }
    Opml { version: dice.text(&WORDS, 3), head, body: Body { outlines } }
}

#[test]
fn every_document_without_a_comma_in_a_category_survives_the_round_trip() {
    let mut dice = Dice(4);
    for _ in 0..1_500 {
        let document = any_document(&mut dice);
        let text = encode(&document);
        assert_eq!(decode(&text).as_ref(), Ok(&document), "{}", text);
        assert_eq!(
            Opml::from_element(&document.to_element()).as_ref(),
            Ok(&document)
        );
    }
}

#[test]
fn every_decoded_document_survives_the_round_trip() {
    let mut dice = Dice(5);
    let mut decoded = 0;
    for _ in 0..3_000 {
        let mut text = String::from("<opml version=\"2.0\"><head/><body>");
        for _ in 0..dice.roll(3) {
            text.push_str("<outline text=\"");
            text.push_str(&dice.text(&PLAIN[..8], 3).replace('<', "&lt;").replace('&', "&amp;").replace('"', ""));
            text.push_str("\" category=\"");
            text.push_str(&dice.text(&["a", ",", " ", ",,", "b c"], 5));
            text.push_str("\"/>");
        }
        text.push_str("</body></opml>");
        if let Ok(document) = decode(&text) {
            decoded += 1;
            assert_eq!(decode(&encode(&document)).as_ref(), Ok(&document), "{}", text);
        }
    }
    assert!(decoded > 1_000);
}

#[test]
fn the_depth_limit_is_the_height_of_the_tree() {
    let mut dice = Dice(6);
    for _ in 0..500 {
        let tree = any_tree(&mut dice, 5);
        let height = height_of(&tree);
        let text = render(&tree);
        assert_eq!(parse(&text, height).as_ref(), Ok(&tree));
        assert_eq!(
            parse(&text, height - 1),
            Err(opml_codec::DecodeError::DepthExceeded { limit: height - 1 })
        );
    }
    let document = any_document(&mut dice);
    assert!(decode_within(&encode(&document), 5).is_ok());
}

fn height_of(e: &Element) -> usize {
    1 + e.children.iter().map(height_of).max().unwrap_or(0)
}

#[test]
fn long_lists_are_read_in_one_pass() {
    let numbers: Vec<u32> = (0..100_000).collect();
    let text = opml_codec::format_int_list(&numbers);
    assert_eq!(opml_codec::parse_int_list(&text), Ok(numbers));
    let commas = ",".repeat(200_000);
    assert_eq!(opml_codec::parse_string_list(&commas).len(), 200_001);
    let spaces = " ".repeat(300_000);
    assert_eq!(opml_codec::parse_int_list(&spaces), Ok(vec![]));
    let zeros = format!("{}7", "0".repeat(300_000));
    assert_eq!(opml_codec::parse_int_list(&zeros), Ok(vec![7]));
}

#[test]
fn long_names_and_values_are_read_in_one_pass() {
    let name = "n".repeat(300_000);
    let value = "v, ".repeat(100_000);
    let text = format!("<{} text=\"{}\"></{}>", name, value, name);
    let tree = parse(&text, 1).unwrap();
    assert_eq!(tree.name, name);
    assert_eq!(tree.attributes[0].value, value);
    let text = format!(
        "<opml version=\"2.0\"><head/><body><outline text=\"t\" category=\"{}\"/></body></opml>",
        value
    );
    let opml = decode(&text).unwrap();
    assert_eq!(opml.body.outlines[0].category.len(), 100_001);
    assert_eq!(decode(&encode(&opml)).unwrap(), opml);
}

#[test]
fn many_outlines_are_read_in_one_pass() {
    let mut text = String::from("<opml version=\"2.0\"><head/><body>");
    for i in 0..20_000 {
        text.push_str(&format!(
            "<outline text=\"feed {}\" type=\"rss\" xmlUrl=\"http://example.org/{}.xml\"/>",
            i, i
        ));
    }
    text.push_str("</body></opml>");
    let opml = decode(&text).unwrap();
    assert_eq!(opml.body.outlines.len(), 20_000);
    assert_eq!(opml.body.outlines[19_999].text, "feed 19999");
    assert_eq!(decode(&encode(&opml)).unwrap(), opml);
}
