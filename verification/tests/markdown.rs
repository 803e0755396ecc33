use nb2typst::diagnostic::{Diagnostic, DiagnosticKind};
use nb2typst::markdown::{
    collect_definitions, collect_remote_images, convert_markdown, image_markup, parse_ast,
    parse_children, parse_definition, parse_html, parse_image, parse_markdown, parse_range,
    remote_image_urls, ChildStyle, RenderState,
};
use nb2typst::mdast::{enter, find, AlignKind, MdKind, MdNode, Tables};

fn node(kind: MdKind, children: Vec<MdNode>) -> MdNode {
    MdNode { kind, children }
}

fn leaf(kind: MdKind) -> MdNode {
    MdNode { kind, children: vec![] }
}

fn text(s: &str) -> MdNode {
    leaf(MdKind::Text { value: s.to_string() })
}

fn paragraph(children: Vec<MdNode>) -> MdNode {
    node(MdKind::Paragraph, children)
}

fn html(s: &str) -> MdNode {
    leaf(MdKind::Html { value: s.to_string() })
}

fn image(url: &str) -> MdNode {
    leaf(MdKind::Image { url: url.to_string() })
}

fn cell(s: &str) -> MdNode {
    node(MdKind::TableCell, vec![text(s)])
}

fn note(kind: DiagnosticKind, subject: &str) -> Diagnostic {
    Diagnostic { kind, subject: subject.to_string() }
}

fn render(ast: &MdNode) -> String {
    parse_markdown(ast, &vec![])
}

#[test]
fn paragraph_with_inline_styles() {
    let ast = node(
        MdKind::Root,
        vec![paragraph(vec![
            text("Hello "),
            node(MdKind::Strong, vec![text("bold")]),
            text(" and "),
            node(MdKind::Emphasis, vec![text("it")]),
            node(MdKind::Delete, vec![text("gone")]),
        ])],
    );
    assert_eq!(render(&ast), "Hello *bold* and _it_#strike[gone]\n\n");
}

#[test]
fn text_is_prose_escaped() {
    assert_eq!(render(&text("*a_b")), r"\*a\_b");
    assert_eq!(render(&text("*a_ <b>")), r"\*a\_ \<b\>");
    assert_eq!(render(&text("- not a list")), r"\- not a list");
    assert_eq!(render(&text(" kept as it is ")), " kept as it is ");
    let ast = paragraph(vec![text("2 "), node(MdKind::Strong, vec![text("+ 2")]), text(" = 4")]);
    assert_eq!(render(&ast), "2 *\\+ 2* = 4\n");
}

#[test]
fn headings() {
    let ast = node(MdKind::Heading { depth: 2 }, vec![text("T")]);
    assert_eq!(render(&ast), "\n\n== T\n\n");
    let ast = node(MdKind::Heading { depth: 6 }, vec![]);
    assert_eq!(render(&ast), "\n\n====== \n\n");
}

#[test]
fn nested_lists() {
    let inner = node(
        MdKind::List { ordered: true },
        vec![node(MdKind::ListItem, vec![paragraph(vec![text("c")])])],
    );
    let ast = node(
        MdKind::List { ordered: false },
        vec![
            node(MdKind::ListItem, vec![paragraph(vec![text("a")])]),
            node(MdKind::ListItem, vec![paragraph(vec![text("b")]), inner]),
        ],
    );
    assert_eq!(render(&ast), "- a\n- b\n  + c\n");
}

#[test]
fn code_and_math() {
    let code = leaf(MdKind::Code { lang: None, value: "x = \"1\"".to_string() });
    assert_eq!(render(&code), "```text\nx = \"1\"\n```\n\n");
    let code = leaf(MdKind::Code { lang: Some("python".to_string()), value: "pass".to_string() });
    assert_eq!(render(&code), "```python\npass\n```\n\n");
    assert_eq!(render(&leaf(MdKind::InlineCode { value: "a*b".to_string() })), "`a*b`");
    assert_eq!(render(&leaf(MdKind::InlineMath { value: "x^2".to_string() })), "#mi(`x^2`)");
    assert_eq!(render(&leaf(MdKind::Math { value: "x^2".to_string() })), "#mimath(`$$\nx^2\n$$`)");
}

#[test]
fn breaks_and_rules() {
    assert_eq!(render(&leaf(MdKind::Break)), "\\\n");
    assert_eq!(render(&leaf(MdKind::ThematicBreak)), "#line(length: 100%)\n");
    assert_eq!(render(&html("<br>")), "\\\n");
    let quote = node(MdKind::Blockquote, vec![paragraph(vec![text("q")])]);
    assert_eq!(render(&quote), "#block-quote[q\n]\n\n");
}

#[test]
fn table_rows_are_filled_up() {
    let ast = node(
        MdKind::Table { align: vec![AlignKind::Left, AlignKind::Center, AlignKind::Auto] },
        vec![
            node(MdKind::TableRow, vec![cell("h1"), cell("h2"), cell("h3")]),
            node(MdKind::TableRow, vec![cell("a")]),
            node(MdKind::TableRow, vec![cell("b"), cell("c"), cell("d")]),
            node(MdKind::TableRow, vec![]),
        ],
    );
    assert_eq!(
        render(&ast),
        "#table(\n  columns: 3,\n  align: (left, center, auto),\n  table.header(\n    [h1], [h2], [h3], \n  ),\n  [a], [], [], \n  [b], [c], [d], \n  [], [], [], \n)\n\n"
    );
}

#[test]
fn table_row_with_more_cells_is_cut_and_reported() {
    let ast = node(
        MdKind::Table { align: vec![AlignKind::Right] },
        vec![
            node(MdKind::TableRow, vec![cell("h")]),
            node(MdKind::TableRow, vec![cell("a"), cell("b"), node(MdKind::TableCell, vec![html("<b>")])]),
            node(MdKind::TableRow, vec![html("</b>")]),
        ],
    );
    let markup = convert_markdown(&ast, &vec![]);
    assert_eq!(
        markup.text,
        "#table(\n  columns: 1,\n  align: (right),\n  table.header(\n    [h], \n  ),\n  [a], \n  \n)\n\n"
    );
    assert_eq!(
        markup.diagnostics,
        vec![note(DiagnosticKind::ExtraCells, "2"), note(DiagnosticKind::UnmatchedTag, "</b>")]
    );
}

#[test]
fn ranges_of_children() {
    let parent = node(MdKind::Root, vec![text("a"), text("b"), text("c")]);
    let media = vec![];
    let tables = Tables { definitions: vec![], footnotes: vec![], media: &media };
    let mut state = RenderState::new();
    assert_eq!(parse_range(&parent, 1, 3, &tables, &mut state, ChildStyle::Line), "b\nc\n");
    assert_eq!(parse_range(&parent, 0, 1, &tables, &mut state, ChildStyle::Plain), "a");
    assert_eq!(parse_range(&parent, 2, 2, &tables, &mut state, ChildStyle::Plain), "");
    assert_eq!(parse_range(&parent, 0, 4, &tables, &mut state, ChildStyle::Plain), "");
    let row = node(MdKind::Table { align: vec![] }, vec![node(MdKind::TableRow, vec![cell("x")]), text("t")]);
    assert_eq!(parse_range(&row, 0, 2, &tables, &mut state, ChildStyle::Row(2)), "  [x], [], \nt");
}

#[test]
fn footnote_body_is_quote_escaped() {
    let ast = node(
        MdKind::Root,
        vec![
            leaf(MdKind::FootnoteReference { identifier: "q".to_string() }),
            node(
                MdKind::FootnoteDefinition { identifier: "q".to_string() },
                vec![leaf(MdKind::InlineCode { value: "say \"hi\"".to_string() })],
            ),
        ],
    );
    assert_eq!(render(&ast), "#footnote(\"`say \\\"hi\\\"`\")[q]\n\n");
}

#[test]
fn table_without_rows_is_reported() {
    let ast = node(MdKind::Table { align: vec![] }, vec![]);
    let markup = convert_markdown(&ast, &vec![]);
    assert_eq!(markup.text, "");
    assert_eq!(markup.diagnostics, vec![note(DiagnosticKind::EmptyTable, "")]);
}

#[test]
fn footnote_defined_after_its_use() {
    let ast = node(
        MdKind::Root,
        vec![
            paragraph(vec![
                text("x"),
                leaf(MdKind::FootnoteReference { identifier: "n".to_string() }),
            ]),
            node(
                MdKind::FootnoteDefinition { identifier: "n".to_string() },
                vec![paragraph(vec![text("note")])],
            ),
        ],
    );
    let markup = convert_markdown(&ast, &vec![]);
    assert_eq!(markup.text, "x#footnote(\"note\n\")[n]\n\n\n");
    assert!(markup.diagnostics.is_empty());
}

#[test]
fn footnote_never_defined_is_empty() {
    let ast = paragraph(vec![
        text("x"),
        leaf(MdKind::FootnoteReference { identifier: "zz".to_string() }),
    ]);
    let markup = convert_markdown(&ast, &vec![]);
    assert_eq!(markup.text, "x\n");
    assert_eq!(markup.diagnostics, vec![note(DiagnosticKind::UndefinedReference, "zz")]);
}

#[test]
fn footnote_defined_inside_another_node() {
    let ast = node(
        MdKind::Root,
        vec![
            leaf(MdKind::FootnoteReference { identifier: "deep".to_string() }),
            node(
                MdKind::Blockquote,
                vec![node(
                    MdKind::FootnoteDefinition { identifier: "deep".to_string() },
                    vec![text("d")],
                )],
            ),
        ],
    );
    assert_eq!(render(&ast), "#footnote(\"d\")[deep]\n#block-quote[]\n\n\n");
}

#[test]
fn later_definition_replaces_earlier() {
    let ast = node(
        MdKind::Root,
        vec![
            leaf(MdKind::Definition { identifier: "r".to_string(), url: "first".to_string() }),
            leaf(MdKind::Definition { identifier: "r".to_string(), url: "second".to_string() }),
            node(MdKind::LinkReference { identifier: "r".to_string() }, vec![text("t")]),
        ],
    );
    assert_eq!(render(&ast), "\n\n#link(\"second\")[t]\n");
}

#[test]
fn links() {
    let ast = node(MdKind::Link { url: "https://e.org/?q=\"a\"".to_string() }, vec![text("t")]);
    assert_eq!(render(&ast), r#"#link("https://e.org/?q=\"a\"")[t]"#);
    let ast = node(MdKind::LinkReference { identifier: "none".to_string() }, vec![text("t")]);
    let markup = convert_markdown(&ast, &vec![]);
    assert_eq!(markup.text, "");
    assert_eq!(markup.diagnostics, vec![note(DiagnosticKind::UndefinedReference, "none")]);
}

#[test]
fn images_by_kind_of_source() {
    let media = vec![
        ("https://example.com/a.png".to_string(), "./downloads/downloaded.png".to_string()),
        ("pic.png".to_string(), "/tmp/dl/pic.png".to_string()),
    ];
    assert_eq!(
        parse_markdown(&image("fig \"1\".png"), &media),
        r#"#figure(align(center, image("fig \"1\".png", width: 50%)))"#
    );
    assert_eq!(
        parse_markdown(&image("https://example.com/a.png"), &media),
        r#"#figure(align(center, image("./downloads/downloaded.png", width: 100%)))"#
    );
    assert_eq!(
        parse_markdown(&image("attachment:pic.png"), &media),
        r#"#figure(align(center, image("/tmp/dl/pic.png", width: 100%)))"#
    );
    for url in ["https://example.com/other.png", "attachment:none.png", "ftp://example.com/a.png"] {
        let markup = convert_markdown(&image(url), &media);
        assert_eq!(markup.text, "");
        assert_eq!(markup.diagnostics, vec![note(DiagnosticKind::UnresolvedImage, url)]);
    }
}

#[test]
fn image_markup_takes_the_scheme() {
    let media = vec![("k".to_string(), "p".to_string())];
    let mut state = RenderState::new();
    assert_eq!(
        image_markup("k", Some("https"), &media, &mut state),
        r#"#figure(align(center, image("p", width: 100%)))"#
    );
    assert_eq!(
        image_markup("attachment:k", Some("attachment"), &media, &mut state),
        r#"#figure(align(center, image("p", width: 100%)))"#
    );
    assert_eq!(
        image_markup("k", None, &media, &mut state),
        r#"#figure(align(center, image("k", width: 50%)))"#
    );
    assert_eq!(image_markup("k", Some("file"), &media, &mut state), "");
    assert_eq!(state.diagnostics, vec![note(DiagnosticKind::UnresolvedImage, "k")]);
    let mut state = RenderState::new();
    assert_eq!(
        parse_image("HTTPS://EXAMPLE.com/x", &vec![("HTTPS://EXAMPLE.com/x".to_string(), "p".to_string())], &mut state),
        r#"#figure(align(center, image("p", width: 100%)))"#
    );
}

#[test]
fn image_reference_goes_by_its_definition() {
    let ast = node(
        MdKind::Root,
        vec![
            leaf(MdKind::ImageReference { identifier: "i".to_string() }),
            leaf(MdKind::Definition { identifier: "i".to_string(), url: "local.png".to_string() }),
        ],
    );
    assert_eq!(
        render(&ast),
        "#figure(align(center, image(\"local.png\", width: 50%)))\n\n"
    );
}

#[test]
fn html_tags_open_and_close() {
    let ast = paragraph(vec![
        html("<b>"), text("x"), html("</b>"),
        html("<i>"), text("y"), html("</i>"),
        html("<u>"), text("z"), html("</u>"),
    ]);
    let markup = convert_markdown(&ast, &vec![]);
    assert_eq!(markup.text, "*x*_y_#underline[z]\n");
    assert!(markup.diagnostics.is_empty());
}

#[test]
fn html_problems_are_reported() {
    let ast = paragraph(vec![html("</b>"), html("<span>"), html("<b>"), html("</u>"), html("</i>")]);
    let markup = convert_markdown(&ast, &vec![]);
    assert_eq!(markup.text, "*]\n");
    assert_eq!(
        markup.diagnostics,
        vec![
            note(DiagnosticKind::UnmatchedTag, "</b>"),
            note(DiagnosticKind::UnsupportedHtml, "<span>"),
            note(DiagnosticKind::UnmatchedTag, "</i>"),
        ]
    );
}

#[test]
fn html_queue_is_carried_on() {
    let mut state = RenderState::new();
    assert_eq!(parse_html("<b>", &mut state), "*");
    assert_eq!(parse_html("<u>", &mut state), "#underline[");
    assert_eq!(state.html_queue, vec!["<b>".to_string(), "<u>".to_string()]);
    assert_eq!(parse_html("</i>", &mut state), "_");
    assert_eq!(state.html_queue, vec!["<u>".to_string()]);
}

#[test]
fn unsupported_nodes_are_reported() {
    let ast = node(
        MdKind::Root,
        vec![leaf(MdKind::Unsupported { name: "yaml".to_string() }), paragraph(vec![text("a")])],
    );
    let markup = convert_markdown(&ast, &vec![]);
    assert_eq!(markup.text, "\na\n\n");
    assert_eq!(markup.diagnostics, vec![note(DiagnosticKind::UnsupportedNode, "yaml")]);
}

#[test]
fn children_in_each_style() {
    let parent = node(MdKind::Root, vec![text("a\n\n"), text("b\nc")]);
    let media = vec![];
    let tables = Tables { definitions: vec![], footnotes: vec![], media: &media };
    let mut state = RenderState::new();
    assert_eq!(parse_children(&parent, 0, &tables, &mut state, ChildStyle::Plain), "a\n\nb\nc");
    assert_eq!(parse_children(&parent, 1, &tables, &mut state, ChildStyle::Line), "b\nc\n");
    assert_eq!(
        parse_children(&parent, 0, &tables, &mut state, ChildStyle::Item(true)),
        "+ a\n+ b\n  c\n"
    );
    assert_eq!(parse_children(&parent, 2, &tables, &mut state, ChildStyle::Plain), "");
    assert_eq!(parse_children(&parent, 7, &tables, &mut state, ChildStyle::Plain), "");
    assert_eq!(parse_ast(&parent, &tables, &mut state), "a\n\n\nb\nc\n");
}

#[test]
fn first_pass_fills_the_tables() {
    let ast = node(
        MdKind::Root,
        vec![
            leaf(MdKind::Definition { identifier: "a".to_string(), url: "u".to_string() }),
            node(MdKind::FootnoteDefinition { identifier: "f".to_string() }, vec![text("body")]),
        ],
    );
    let media = vec![];
    let mut tables = Tables { definitions: vec![], footnotes: vec![], media: &media };
    let mut state = RenderState::new();
    parse_definition(&ast, &mut tables, &mut state);
    assert_eq!(tables.definitions, vec![("a".to_string(), "u".to_string())]);
    assert_eq!(tables.footnotes, vec![("f".to_string(), "body".to_string())]);
}

#[test]
fn tables_keep_the_last_entry() {
    let mut entries = vec![];
    enter(&mut entries, "k", "1".to_string());
    enter(&mut entries, "j", "2".to_string());
    enter(&mut entries, "k", "3".to_string());
    assert_eq!(find(&entries, "k"), Some("3"));
    assert_eq!(find(&entries, "j"), Some("2"));
    assert_eq!(find(&entries, "x"), None);
}

#[test]
fn remote_images_are_listed() {
    let ast = node(
        MdKind::Root,
        vec![
            paragraph(vec![image("https://example.com/a.png"), image("local.png")]),
            node(MdKind::Blockquote, vec![image("http://example.com/b.png")]),
            image("attachment:c.png"),
            leaf(MdKind::ImageReference { identifier: "far".to_string() }),
            leaf(MdKind::ImageReference { identifier: "near".to_string() }),
            leaf(MdKind::ImageReference { identifier: "nowhere".to_string() }),
            leaf(MdKind::Definition {
                identifier: "far".to_string(),
                url: "https://example.com/far.png".to_string(),
            }),
            leaf(MdKind::Definition { identifier: "near".to_string(), url: "near.png".to_string() }),
        ],
    );
    let expected = vec![
        "https://example.com/a.png".to_string(),
        "http://example.com/b.png".to_string(),
        "https://example.com/far.png".to_string(),
    ];
    assert_eq!(remote_image_urls(&ast), expected);

    let mut definitions = vec![];
    collect_definitions(&ast, &mut definitions);
    assert_eq!(
        definitions,
        vec![
            ("far".to_string(), "https://example.com/far.png".to_string()),
            ("near".to_string(), "near.png".to_string()),
        ]
    );
    let mut urls = vec!["first".to_string()];
    collect_remote_images(&ast, &vec![], &mut urls);
    assert_eq!(
        urls,
        vec![
            "first".to_string(),
            "https://example.com/a.png".to_string(),
            "http://example.com/b.png".to_string(),
        ]
    );
}

#[test]
fn fetched_image_reference_is_rendered() {
    let ast = node(
        MdKind::Root,
        vec![
            leaf(MdKind::ImageReference { identifier: "far".to_string() }),
            leaf(MdKind::Definition {
                identifier: "far".to_string(),
                url: "https://example.com/far.png".to_string(),
            }),
        ],
    );
    let media: Vec<(String, String)> = remote_image_urls(&ast)
        .into_iter()
        .map(|url| (url, "./downloads/downloaded.png".to_string()))
        .collect();
    assert_eq!(
        parse_markdown(&ast, &media),
        "#figure(align(center, image(\"./downloads/downloaded.png\", width: 100%)))\n\n"
    );
}
