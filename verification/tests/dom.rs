use private_search_engines::dom::{collect_text, Node, SkipRule};
use private_search_engines::duckduckgo::{extract_snippet, TitleAndUrl};

fn text(s: &str) -> Node {
    Node::Text(s.to_string())
}

fn element(tag: &str, class: Option<&str>, children: Vec<Node>) -> Node {
    Node::Element { tag: tag.to_string(), class: class.map(|c| c.to_string()), children }
}

#[test]
fn text_node_is_trimmed() {
    assert_eq!(collect_text(&text("  hello world \n"), &TitleAndUrl), "hello world");
    assert_eq!(collect_text(&text("\u{a0}\u{2003}x\u{3000}"), &TitleAndUrl), "x");
    assert_eq!(collect_text(&text(" \t\n "), &TitleAndUrl), "");
    assert_eq!(collect_text(&text(""), &TitleAndUrl), "");
}

#[test]
fn inner_whitespace_of_a_text_node_is_kept() {
    assert_eq!(collect_text(&text(" a   b\n c "), &TitleAndUrl), "a   b\n c");
}

#[test]
fn other_nodes_have_no_text() {
    assert_eq!(collect_text(&Node::Other, &TitleAndUrl), "");
    assert_eq!(collect_text(&element("div", None, vec![Node::Other, Node::Other]), &TitleAndUrl), "");
    assert_eq!(collect_text(&element("div", None, vec![]), &TitleAndUrl), "");
}

#[test]
fn fragments_are_joined_by_single_spaces() {
    let tree = element(
        "div",
        None,
        vec![
            text("  one "),
            text("   "),
            element("span", None, vec![text("two"), element("b", None, vec![text(" three ")])]),
            Node::Other,
            element("i", None, vec![]),
            text("four"),
        ],
    );
    assert_eq!(collect_text(&tree, &TitleAndUrl), "one two three four");
}

#[test]
fn title_and_address_are_left_out() {
    let tree = element(
        "div",
        Some("result"),
        vec![
            element("h2", Some("result__title"), vec![element("a", None, vec![text("The Title")])]),
            element(
                "div",
                Some("extras"),
                vec![
                    element("a", Some("result__url"), vec![text("example.com")]),
                    element("a", Some("big result__url__x"), vec![text("hidden too")]),
                    element("span", Some("result__ur"), vec![text("kept")]),
                ],
            ),
            element("a", Some("result__snippet"), vec![text("The "), element("b", None, vec![text("snippet")]), text(" text.")]),
        ],
    );
    assert_eq!(collect_text(&tree, &TitleAndUrl), "kept The snippet text.");
    assert_eq!(extract_snippet(&tree), "kept The snippet text.");
}

#[test]
fn the_node_itself_is_not_put_to_the_rule() {
    let heading = element("h2", None, vec![text("inside")]);
    assert_eq!(collect_text(&heading, &TitleAndUrl), "inside");
    let wrapped = element("div", None, vec![element("h2", None, vec![text("inside")])]);
    assert_eq!(collect_text(&wrapped, &TitleAndUrl), "");
}

#[test]
fn tag_names_are_compared_exactly() {
    let tree = element("div", None, vec![element("H2", None, vec![text("a")]), element("h22", None, vec![text("b")])]);
    assert_eq!(collect_text(&tree, &TitleAndUrl), "a b");
}

#[test]
fn skip_rule_of_a_result_block() {
    assert!(TitleAndUrl.should_skip("h2", ""));
    assert!(TitleAndUrl.should_skip("a", "result__url"));
    assert!(TitleAndUrl.should_skip("a", "x result__url y"));
    assert!(TitleAndUrl.should_skip("h2", "result__url"));
    assert!(!TitleAndUrl.should_skip("a", "result__snippet"));
    assert!(!TitleAndUrl.should_skip("a", ""));
    assert!(!TitleAndUrl.should_skip("h3", "result_url"));
}

#[test]
fn every_white_space_character_is_trimmed() {
    let white = [
        '\u{9}', '\u{a}', '\u{b}', '\u{c}', '\u{d}', ' ', '\u{85}', '\u{a0}', '\u{1680}',
        '\u{2000}', '\u{2001}', '\u{2002}', '\u{2003}', '\u{2004}', '\u{2005}', '\u{2006}',
        '\u{2007}', '\u{2008}', '\u{2009}', '\u{200a}', '\u{2028}', '\u{2029}', '\u{202f}',
        '\u{205f}', '\u{3000}',
    ];
    assert_eq!(white.len(), 25);
    for c in white {
        assert_eq!(collect_text(&text(&format!("{}x{}", c, c)), &TitleAndUrl), "x");
        assert_eq!(collect_text(&text(&format!("{}", c)), &TitleAndUrl), "");
    }
}

#[test]
fn characters_next_to_the_white_space_are_kept() {
    for c in ['\u{8}', '\u{e}', '\u{1f}', '\u{84}', '\u{86}', '\u{180e}', '\u{1fff}', '\u{200b}', '\u{2060}', '\u{feff}'] {
        let kept = format!("{}x{}", c, c);
        assert_eq!(collect_text(&text(&kept), &TitleAndUrl), kept);
    }
}
