use nb2typst::dom::{build_tree, DomData, HtmlNode};
use nb2typst::html::{
    classify, cleanup, convert_html, get_attr_value, inside_list, push_image, push_item_marker,
    render_html, walk, walk_descendants, Context, TagKind,
};

fn text(s: &str) -> HtmlNode {
    HtmlNode::Text(s.to_string())
}

fn element(name: &str, children: Vec<HtmlNode>) -> HtmlNode {
    HtmlNode::Element { name: name.to_string(), attrs: vec![], children }
}

fn stack(tags: &[Option<&str>]) -> Vec<Option<String>> {
    tags.iter().map(|t| t.map(|s| s.to_string())).collect()
}

#[test]
fn classify_tags() {
    assert_eq!(classify("div"), TagKind::Division);
    assert_eq!(classify("footer"), TagKind::Division);
    assert_eq!(classify("li"), TagKind::ListItem);
    assert_eq!(classify("ol"), TagKind::OrderedList);
    assert_eq!(classify("menu"), TagKind::UnorderedList);
    assert_eq!(classify("h4"), TagKind::Heading(4));
    assert_eq!(classify("body"), TagKind::Transparent);
    assert_eq!(classify("table"), TagKind::Unsupported);
    assert_eq!(classify("h7"), TagKind::Unsupported);
    assert_eq!(classify(""), TagKind::Unsupported);
}

#[test]
fn marker_goes_by_nearest_list() {
    let mut out = String::new();
    push_item_marker(&mut out, &stack(&[None, Some("ul"), Some("li"), Some("ol")]));
    assert_eq!(out, "  + ");

    let mut out = String::new();
    push_item_marker(&mut out, &stack(&[Some("ol"), Some("ol"), Some("ul"), Some("p")]));
    assert_eq!(out, "    - ");

    let mut out = String::new();
    push_item_marker(&mut out, &stack(&[Some("ul"), Some("menu"), Some("ol")]));
    assert_eq!(out, "    + ");

    let mut out = String::from("x");
    push_item_marker(&mut out, &stack(&[Some("div"), None]));
    assert_eq!(out, "x- ");
}

#[test]
fn inside_list_sees_any_list() {
    assert!(!inside_list(&stack(&[])));
    assert!(!inside_list(&stack(&[None, Some("p")])));
    assert!(inside_list(&stack(&[Some("menu"), Some("p")])));
}

#[test]
fn first_attribute_wins() {
    let attrs = vec![
        ("id".to_string(), "one".to_string()),
        ("class".to_string(), "c".to_string()),
        ("id".to_string(), "two".to_string()),
    ];
    assert_eq!(get_attr_value(&attrs, "id"), Some("one"));
    assert_eq!(get_attr_value(&attrs, "class"), Some("c"));
    assert_eq!(get_attr_value(&attrs, "href"), None);
}

#[test]
fn image_markup_forms() {
    let mut out = String::new();
    push_image(&mut out, Some("a\"b"), Some("c\"d"));
    assert_eq!(out, r#"#figure(caption: [c"d], image(alt: "c\"d", "a\"b"))"#);
    let mut out = String::new();
    push_image(&mut out, None, Some("alt"));
    assert_eq!(out, "");
}

#[test]
fn walk_restores_the_stack() {
    let tree = element("ul", vec![element("li", vec![text(" One ")])]);
    let mut ctx = Context::new();
    ctx.tag_stack.push(Some("body".to_string()));
    ctx.output.push_str("before");
    walk(&tree, &mut ctx);
    assert_eq!(ctx.tag_stack, vec![Some("body".to_string())]);
    assert_eq!(ctx.output, "before\n\n- One\n\n\n");
    assert!(ctx.unsupported.is_empty());
}

#[test]
fn walk_descendants_pushes_the_tag() {
    let tree = element("x", vec![element("li", vec![text("a")])]);
    let mut ctx = Context::new();
    walk_descendants(&tree, &mut ctx, Some("ol".to_string()));
    assert_eq!(ctx.output, "+ a\n");
    assert!(ctx.tag_stack.is_empty());
}

#[test]
fn unsupported_elements_are_named() {
    let tree = HtmlNode::Other {
        children: vec![
            element("p", vec![text("kept")]),
            element("table", vec![element("tr", vec![text("dropped")])]),
            element("p", vec![element("code", vec![text("x")])]),
        ],
    };
    let rendered = render_html(&tree);
    assert_eq!(rendered.text, "kept");
    assert_eq!(rendered.unsupported, vec!["table".to_string(), "code".to_string()]);

    let rendered = convert_html("<p>a</p><pre>b</pre><p>c<sub>1</sub></p>");
    assert_eq!(rendered.text, "a\n\nc");
    assert_eq!(rendered.unsupported, vec!["pre".to_string(), "sub".to_string()]);
}

#[test]
fn heading_without_id_in_a_tree() {
    let mut ctx = Context::new();
    walk(&element("h2", vec![text("Sub")]), &mut ctx);
    walk(&element("p", vec![text("x")]), &mut ctx);
    assert_eq!(ctx.output, "== Sub\nx\n\n");
}

#[test]
fn cleanup_trims_both_ends() {
    assert_eq!(cleanup(" \n a b \t\n"), "a b");
    assert_eq!(cleanup("\u{a0}x\u{3000}"), "x");
    assert_eq!(cleanup("\u{85}\u{1680}\u{2000}\u{200a}\u{2028}\u{2029}\u{202f}\u{205f}x\u{b}\u{c}"), "x");
    assert_eq!(cleanup("\u{200b}x\u{180e}"), "\u{200b}x\u{180e}");
    assert_eq!(cleanup("\u{1f}x\u{e}"), "\u{1f}x\u{e}");
    assert_eq!(cleanup("   "), "");
    assert_eq!(cleanup(""), "");
}

#[test]
fn tree_from_records() {
    // document(html(head, body(p(text)))), a node before its descendants,
    // the last child first
    let records = vec![
        (DomData::Other, 1),
        (DomData::Element("html".to_string(), vec![]), 2),
        (DomData::Element("body".to_string(), vec![]), 1),
        (DomData::Element("p".to_string(), vec![("id".to_string(), "x".to_string())]), 1),
        (DomData::Text("hi".to_string()), 0),
        (DomData::Element("head".to_string(), vec![]), 0),
    ];
    let expected = HtmlNode::Other {
        children: vec![element(
            "html",
            vec![
                element("head", vec![]),
                element(
                    "body",
                    vec![HtmlNode::Element {
                        name: "p".to_string(),
                        attrs: vec![("id".to_string(), "x".to_string())],
                        children: vec![text("hi")],
                    }],
                ),
            ],
        )],
    };
    assert_eq!(build_tree(records), expected);
}

#[test]
fn tree_from_odd_records() {
    assert_eq!(build_tree(vec![]), HtmlNode::Other { children: vec![] });
    // a record that announces more children than follow gets those that do
    let records = vec![(DomData::Element("p".to_string(), vec![]), 5), (DomData::Text("a".to_string()), 0)];
    assert_eq!(build_tree(records), element("p", vec![text("a")]));
}
