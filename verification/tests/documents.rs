use opml_codec::{decode, encode, Head, Opml, Outline};

#[test]
fn test_outline() {
    let s = r#"<outline text="The Mets are the best team in baseball." category="/Philosophy/Baseball/Mets,/Tourism/New York" created="Mon, 31 Oct 2005 18:21:33 GMT"/>"#;
    let outline: Outline = Outline::from_xml(s).unwrap();
    assert!(outline.text == "The Mets are the best team in baseball.");
    println!("{:?}", outline.category);

    assert!(outline.category.len() == 2);
    assert!(outline.created.unwrap() == "Mon, 31 Oct 2005 18:21:33 GMT");

    let s = r#"	<outline text="x" type="link" url="http://hosting.opml.org/dave/mySites.opml" isComment="true" isBreakpoint="true"
           htmlUrl="http://www.infoworld.com/news/index.html" language="unknown"
      title="x" version="RSS2"
      xmlUrl="http://www.infoworld.com/rss/news.xml"
      >
			<outline text="x" isBreakpoint="true"/>
			<outline text="x"/>
			</outline>"#;
    let outline: Outline = Outline::from_xml(s).unwrap();
    assert_eq!(
        outline.url.unwrap(),
        "http://hosting.opml.org/dave/mySites.opml"
    );
    assert_eq!(outline.title.unwrap(), "x");
    assert_eq!(outline.ty.unwrap(), "link");
    assert_eq!(outline.version.unwrap(), "RSS2");
    assert!(outline.is_comment.unwrap());
    assert!(outline.is_breakpoint.unwrap());
    assert!(outline.outlines[0].is_breakpoint.unwrap());
    assert_eq!(outline.outlines[1].text, "x");
}

#[test]
fn test_head() {
    let s = r#"<head>
    <title>states.opml</title>
    <dateCreated>Tue, 15 Mar 2005 16:35:45 GMT</dateCreated>
    <dateModified>Thu, 14 Jul 2005 23:41:05 GMT</dateModified>
    <ownerName>Dave Winer</ownerName>
    <ownerEmail>dave@scripting.com</ownerEmail>
    <expansionState>1, 6, 13, 16,18,20</expansionState>
    <vertScrollState>1</vertScrollState>
    <windowTop>106</windowTop>
    <windowLeft>106</windowLeft>
    <windowBottom>558</windowBottom>
    <windowRight>479</windowRight>
  </head>"#;
    let head: Head = Head::from_xml(s).unwrap();
    assert_eq!(head.title.unwrap(), "states.opml");
    assert_eq!(head.date_created.unwrap(), "Tue, 15 Mar 2005 16:35:45 GMT");
    assert_eq!(head.date_modified.unwrap(), "Thu, 14 Jul 2005 23:41:05 GMT");
    assert_eq!(head.owner_name.unwrap(), "Dave Winer");
    assert_eq!(head.owner_email.unwrap(), "dave@scripting.com");
    assert_eq!(head.expansion_state.len(), 6);
    assert_eq!(head.vert_scroll_state.unwrap(), 1);
    assert_eq!(head.window_top.unwrap(), 106);
    assert_eq!(head.window_left.unwrap(), 106);
    assert_eq!(head.window_bottom.unwrap(), 558);
    assert_eq!(head.window_right.unwrap(), 479);
}

fn states_document() -> &'static str {
    r#"<?xml version="1.0" encoding="ISO-8859-1"?>
<!-- a list of places -->
<opml version="2.0">
  <head>
    <title>states.opml</title>
    <dateCreated>Tue, 15 Mar 2005 16:35:45 GMT</dateCreated>
    <dateModified>Thu, 14 Jul 2005 23:41:05 GMT</dateModified>
    <ownerName>Dave Winer</ownerName>
    <ownerEmail>dave@scripting.com</ownerEmail>
    <expansionState>1, 6, 13, 16,18,20</expansionState>
    <vertScrollState>1</vertScrollState>
    <windowTop>106</windowTop>
    <windowLeft>106</windowLeft>
    <windowBottom>558</windowBottom>
    <windowRight>479</windowRight>
  </head>
  <body>
    <outline text="United States">
      <outline text="Far West" isBreakpoint="false"/>
      <outline text="Great Plains" category="/Places/Plains,/Weather"/>
    </outline>
    <outline text="A leaf" type="rss" xmlUrl="http://example.org/feed.xml"/>
    <outline text="Notes &amp; more" isComment="true" description="a &lt;b&gt; tag"/>
  </body>
</opml>"#
}

#[test]
fn full_document_decodes() {
    let opml = decode(states_document()).unwrap();
    assert_eq!(opml.version, "2.0");
    assert_eq!(opml.head.title.as_deref(), Some("states.opml"));
    assert_eq!(opml.head.expansion_state, vec![1, 6, 13, 16, 18, 20]);
    assert_eq!(opml.head.expansion_state.len(), 6);
    assert_eq!(opml.head.window_right, Some(479));
    assert_eq!(opml.body.outlines.len(), 3);
    assert_eq!(opml.body.outlines[0].text, "United States");
    assert_eq!(opml.body.outlines[0].outlines.len(), 2);
    assert_eq!(opml.body.outlines[0].outlines[0].is_breakpoint, Some(false));
    assert_eq!(
        opml.body.outlines[0].outlines[1].category,
        vec!["/Places/Plains".to_string(), "/Weather".to_string()]
    );
    assert!(opml.body.outlines[1].outlines.is_empty());
    assert_eq!(opml.body.outlines[1].ty.as_deref(), Some("rss"));
    assert_eq!(opml.body.outlines[2].text, "Notes & more");
    assert_eq!(opml.body.outlines[2].description.as_deref(), Some("a <b> tag"));
    assert_eq!(opml.body.outlines[2].is_comment, Some(true));
}

#[test]
fn full_document_survives_the_round_trip() {
    let opml = decode(states_document()).unwrap();
    let xml = encode(&opml);
    let again = decode(&xml).unwrap();
    assert_eq!(opml, again);
    assert_eq!(encode(&again), xml);
}

#[test]
fn methods_and_functions_agree() {
    let opml = Opml::from_xml(states_document()).unwrap();
    assert_eq!(opml, decode(states_document()).unwrap());
    assert_eq!(opml.to_xml(), encode(&opml));
}

#[test]
fn nested_outlines_keep_their_shape() {
    let s = r#"<outline text="parent"><outline text="a" isBreakpoint="true"/><outline text="x"/></outline>"#;
    let outline = Outline::from_xml(s).unwrap();
    assert_eq!(outline.outlines.len(), 2);
    assert_eq!(outline.outlines[0].is_breakpoint, Some(true));
    assert_eq!(outline.outlines[1].text, "x");
    assert_eq!(outline.outlines[1].is_breakpoint, None);
}

#[test]
fn category_is_split_without_trimming() {
    let s = r#"<outline text="t" category="/Philosophy/Baseball/Mets,/Tourism/New York"/>"#;
    let outline = Outline::from_xml(s).unwrap();
    assert_eq!(
        outline.category,
        vec!["/Philosophy/Baseball/Mets".to_string(), "/Tourism/New York".to_string()]
    );
    let s = r#"<outline text="t" category=" a , b,,c "/>"#;
    let outline = Outline::from_xml(s).unwrap();
    assert_eq!(
        outline.category,
        vec![" a ".to_string(), " b".to_string(), "".to_string(), "c ".to_string()]
    );
}

#[test]
fn empty_category_attribute_is_one_empty_category() {
    let outline = Outline::from_xml(r#"<outline text="t" category=""/>"#).unwrap();
    assert_eq!(outline.category, vec!["".to_string()]);
    let again = Outline::from_xml(&outline.to_xml()).unwrap();
    assert_eq!(outline, again);
}

#[test]
fn expansion_state_is_trimmed_and_ordered() {
    let head = Head::from_xml("<head><expansionState>1, 6, 13, 16,18,20</expansionState></head>")
        .unwrap();
    assert_eq!(head.expansion_state, vec![1, 6, 13, 16, 18, 20]);
}

#[test]
fn absent_window_top_stays_absent() {
    let head = Head::from_xml("<head><title>t</title><windowLeft>5</windowLeft></head>").unwrap();
    assert_eq!(head.window_top, None);
    assert_eq!(head.window_left, Some(5));
    let xml = head.to_xml();
    assert!(!xml.contains("windowTop"));
    assert!(xml.contains("<windowLeft>5</windowLeft>"));
    assert_eq!(Head::from_xml(&xml).unwrap(), head);
}

#[test]
fn absent_is_not_empty_and_not_zero() {
    let head = Head::from_xml("<head><title></title><windowTop>0</windowTop></head>").unwrap();
    assert_eq!(head.title.as_deref(), Some(""));
    assert_eq!(head.window_top, Some(0));
    assert_eq!(head.owner_name, None);
    assert_eq!(head.window_left, None);
    let again = Head::from_xml(&head.to_xml()).unwrap();
    assert_eq!(head, again);
    assert_ne!(head, Head::new());
}

#[test]
fn empty_head_and_body_decode() {
    let opml = decode(r#"<opml version="1.0"><head/><body/></opml>"#).unwrap();
    assert_eq!(opml.version, "1.0");
    assert_eq!(opml.head, Head::new());
    assert!(opml.body.outlines.is_empty());
    assert_eq!(decode(&encode(&opml)).unwrap(), opml);
}

#[test]
fn unknown_elements_and_attributes_are_passed_over() {
    let s = r#"<opml version="2.0" flavor="x"><head><docs>http://example.org</docs><title>t</title></head><body><note/><outline text="a" color="red"/></body><tail/></opml>"#;
    let opml = decode(s).unwrap();
    assert_eq!(opml.head.title.as_deref(), Some("t"));
    assert_eq!(opml.body.outlines.len(), 1);
    assert_eq!(opml.body.outlines[0], Outline::new("a"));
}

#[test]
fn built_document_survives_the_round_trip() {
    let mut child = Outline::new("child, with a comma");
    child.category = vec!["/a b".to_string(), " c ".to_string()];
    child.is_comment = Some(false);
    child.ty = Some("link".to_string());
    child.url = Some("http://example.org/?a=1&b=\"2\"".to_string());
    let mut parent = Outline::new("<parent>");
    parent.description = Some("line one\nline two\ttabbed\r".to_string());
    parent.outlines.push(child);
    parent.outlines.push(Outline::new(""));
    let mut head = Head::new();
    head.title = Some("  spaced  ".to_string());
    head.expansion_state = vec![0, 4294967295, 7];
    head.vert_scroll_state = Some(-2147483648);
    head.window_top = Some(2147483647);
    head.window_bottom = Some(-1);
    let opml = Opml {
        version: "2.0".to_string(),
        head,
        body: opml_codec::Body { outlines: vec![parent, Outline::new("last")] },
    };
    let xml = encode(&opml);
    assert_eq!(decode(&xml).unwrap(), opml);
}

#[test]
fn encoding_writes_fields_in_their_order() {
    let mut outline = Outline::new("a");
    outline.url = Some("u".to_string());
    outline.category = vec!["x".to_string(), "y".to_string()];
    outline.is_breakpoint = Some(true);
    assert_eq!(
        outline.to_xml(),
        r#"<outline text="a" category="x,y" isBreakpoint="true" url="u"></outline>"#
    );
    let mut head = Head::new();
    head.expansion_state = vec![3, 1, 2];
    head.window_right = Some(-4);
    head.owner_name = Some("me".to_string());
    assert_eq!(
        head.to_xml(),
        "<head><ownerName>me</ownerName><expansionState>3,1,2</expansionState><windowRight>-4</windowRight></head>"
    );
}

#[test]
fn equality_is_structural() {
    let a = Outline::from_xml(r#"<outline text="t" category="x,y"/>"#).unwrap();
    let b = Outline::from_xml(r#"<outline text="t" category="y,x"/>"#).unwrap();
    let c = Outline::from_xml(r#"<outline category="x,y" text="t"></outline>"#).unwrap();
    assert_ne!(a, b);
    assert_eq!(a, c);
}

#[test]
fn equality_sees_every_field_and_every_depth() {
    let text = states_document();
    let a = decode(text).unwrap();
    let mut b = decode(text).unwrap();
    assert!(a == b);
    b.body.outlines[0].outlines[1].category[1].push('x');
    assert!(a != b);
    let mut b = decode(text).unwrap();
    b.head.expansion_state.swap(0, 1);
    assert!(a != b);
    let mut b = decode(text).unwrap();
    b.head.window_top = None;
    assert!(a != b);
    let mut b = decode(text).unwrap();
    b.body.outlines[1].title = Some(String::new());
    assert!(a != b);
    let mut b = decode(text).unwrap();
    b.body.outlines.swap(1, 2);
    assert!(a != b);
    let mut b = decode(text).unwrap();
    b.version.push(' ');
    assert!(a != b);
    let mut b = decode(text).unwrap();
    b.body.outlines[0].outlines.pop();
    assert!(a != b);
}

#[test]
fn a_comma_inside_a_category_splits_it() {
    let mut outline = Outline::new("t");
    outline.category = vec!["a,b".to_string()];
    let again = Outline::from_xml(&outline.to_xml()).unwrap();
    assert_eq!(again.category, vec!["a".to_string(), "b".to_string()]);
    assert_ne!(again, outline);
    assert_eq!(Outline::from_xml(&again.to_xml()).unwrap(), again);
}

#[test]
fn elements_map_to_the_model_and_back() {
    let mut outline = Outline::new("parent");
    outline.ty = Some("rss".to_string());
    outline.outlines.push(Outline::new("child"));
    let element = outline.to_element();
    assert_eq!(element.name, "outline");
    assert_eq!(element.attributes.len(), 2);
    assert_eq!(element.attributes[0].name, "text");
    assert_eq!(element.attributes[0].value, "parent");
    assert_eq!(element.attributes[1].name, "type");
    assert_eq!(element.children.len(), 1);
    assert_eq!(element.children[0].attributes[0].value, "child");
    assert_eq!(Outline::from_element(&element), Ok(outline));
    let opml = decode(states_document()).unwrap();
    let element = opml.to_element();
    assert_eq!(element.name, "opml");
    assert_eq!(element.children.len(), 2);
    assert_eq!(element.children[0].name, "head");
    assert_eq!(element.children[0].children.len(), 11);
    assert_eq!(element.children[1].name, "body");
    assert_eq!(Opml::from_element(&element), Ok(opml));
}

fn subscriptions_document() -> &'static str {
    r#"<?xml version="1.0" encoding="UTF-8"?>
<opml version="2.0">
	<head>
		<title>mySubscriptions.opml</title>
		<dateCreated>Sat, 18 Jun 2005 12:11:52 GMT</dateCreated>
		<dateModified>Tue, 02 Aug 2005 21:42:48 GMT</dateModified>
		<ownerName>Dave Winer</ownerName>
		<ownerEmail>dave@scripting.com</ownerEmail>
		<vertScrollState>1</vertScrollState>
		<windowTop>61</windowTop>
		<windowLeft>304</windowLeft>
		<windowBottom>562</windowBottom>
		<windowRight>842</windowRight>
		</head>
	<body>
		<outline text="CNET News.com" description="Tech news and business reports by CNET News.com." htmlUrl="http://news.com.com/" language="unknown" title="CNET News.com" type="rss" version="RSS2" xmlUrl="http://news.com.com/2547-1_3-0-5.xml"/>
		<outline text="washingtonpost.com - Politics" description="Politics" htmlUrl="http://www.washingtonpost.com/wp-dyn/politics?nav=rss_politics" language="unknown" title="washingtonpost.com - Politics" type="rss" version="RSS2" xmlUrl="http://www.washingtonpost.com/wp-srv/politics/rssheadlines.xml"/>
		</body>
	</opml>"#
}

#[test]
fn test_assets() {
    for txt in [states_document(), subscriptions_document()] {
        let opml: Opml = decode(txt).unwrap();
        assert!(opml.version == "2.0");
        let xml = encode(&opml);
        let opml2: Opml = decode(&xml).unwrap();
        assert_eq!(opml, opml2);
    }
}
