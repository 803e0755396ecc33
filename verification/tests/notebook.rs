use nb2typst::diagnostic::DiagnosticKind;
use nb2typst::mdast::{MdKind, MdNode};
use nb2typst::media::{ImageFormat, MediaItem, Session};
use nb2typst::notebook::{
    convert_cell, convert_legacy_notebook, convert_notebook, convert_notebook_with,
    convert_v4_notebook, count_notebook_images, parse_code, parse_output, Cell, Notebook,
    NotebookData, Output,
};

fn lines(parts: &[&str]) -> Vec<String> {
    parts.iter().map(|s| s.to_string()).collect()
}

fn sample() -> NotebookData {
    NotebookData {
        language: Some("python".to_string()),
        cells: vec![
            Cell::Code {
                execution_count: Some(3),
                source: lines(&["print(1)\n", "x"]),
                outputs: vec![Output::Stream("1\n".to_string())],
            },
            Cell::Raw { source: lines(&["a", "b"]) },
            Cell::Markdown {
                ast: MdNode {
                    kind: MdKind::Paragraph,
                    children: vec![
                        MdNode { kind: MdKind::Text { value: "md".to_string() }, children: vec![] },
                        MdNode { kind: MdKind::Html { value: "<x>".to_string() }, children: vec![] },
                    ],
                },
                media: vec![],
            },
        ],
    }
}

#[test]
fn code_block() {
    assert_eq!(
        parse_code(&lines(&["a\n", "b"]), &Some(12), "python"),
        "#code-block(\"a\nb\", lang: \"python\", count: 12)\n"
    );
    assert_eq!(
        parse_code(&lines(&[]), &None, "text"),
        "#code-block(\"\", lang: \"text\", count: none)\n"
    );
    assert_eq!(
        parse_code(&lines(&["x"]), &Some(-1), "r"),
        "#code-block(\"x\", lang: \"r\", count: -1)\n"
    );
}

#[test]
fn outputs() {
    let outputs = vec![
        Output::Stream("out".to_string()),
        Output::Error(lines(&["line 1", "line 2"])),
        Output::DisplayData(vec![MediaItem::Latex("x".to_string())]),
        Output::ExecuteResult(vec![MediaItem::Image(ImageFormat::Png, "AA==".to_string())]),
    ];
    let mut session = Session::new(lines(&["u"]));
    assert_eq!(
        parse_output(&outputs, &mut session),
        "#output-block(\"out\")\n#output-block(\"line 1\nline 2\")\n#mimath(`x`)#image(\"./downloads/figure_u.png\")"
    );
    assert_eq!(session.files.len(), 1);
    assert_eq!(session.files[0].bytes, vec![0]);
}

#[test]
fn v4_cells_go_into_blocks() {
    let mut session = Session::new(vec![]);
    let content = convert_v4_notebook(&sample(), &mut session);
    assert_eq!(
        content.content,
        "#block[\n#code-block(\"print(1)\nx\", lang: \"python\", count: 3)\n#output-block(\"1\n\")\n]\n#block[\na\nb]\n#block[\nmd\n]\n"
    );
    assert_eq!(session.diagnostics.len(), 1);
    assert_eq!(session.diagnostics[0].kind, DiagnosticKind::UnsupportedHtml);
    assert_eq!(session.diagnostics[0].subject, "<x>");
}

#[test]
fn legacy_cells_follow_each_other() {
    let mut session = Session::new(vec![]);
    let content = convert_legacy_notebook(&sample(), &mut session);
    assert_eq!(
        content.content,
        "#code-block(\"print(1)\nx\", lang: \"python\", count: 3)\n#output-block(\"1\n\")\na\nbmd\n"
    );
}

#[test]
fn language_defaults_to_text() {
    let notebook = NotebookData {
        language: None,
        cells: vec![Cell::Code { execution_count: None, source: lines(&["x"]), outputs: vec![] }],
    };
    let mut session = Session::new(vec![]);
    assert_eq!(
        convert_legacy_notebook(&notebook, &mut session).content,
        "#code-block(\"x\", lang: \"text\", count: none)\n"
    );
    let mut session = Session::new(vec![]);
    assert_eq!(
        convert_cell(&notebook.cells[0], "julia", &mut session),
        "#code-block(\"x\", lang: \"julia\", count: none)\n"
    );
}

#[test]
fn formats_are_told_apart() {
    let mut session = Session::new(vec![]);
    let v4 = convert_notebook_with(&Notebook::V4(sample()), &mut session);
    assert!(v4.content.starts_with("#block[\n"));
    let mut session = Session::new(vec![]);
    let legacy = convert_notebook_with(&Notebook::Legacy(sample()), &mut session);
    assert!(legacy.content.starts_with("#code-block("));
}

#[test]
fn images_get_fresh_names() {
    let notebook = NotebookData {
        language: None,
        cells: vec![
            Cell::Raw { source: vec![] },
            Cell::Code {
                execution_count: Some(1),
                source: vec![],
                outputs: vec![
                    Output::DisplayData(vec![
                        MediaItem::Image(ImageFormat::Png, "AA==".to_string()),
                        MediaItem::Plain("p".to_string()),
                    ]),
                    Output::ExecuteResult(vec![MediaItem::Image(ImageFormat::Gif, "AQ==".to_string())]),
                ],
            },
        ],
    };
    assert_eq!(count_notebook_images(&notebook), 2);
    let conversion = convert_notebook(&Notebook::Legacy(notebook));
    assert_eq!(conversion.files.len(), 2);
    assert!(conversion.diagnostics.is_empty());
    let first = &conversion.files[0].name;
    let second = &conversion.files[1].name;
    assert!(first.starts_with("figure_") && first.ends_with(".png"));
    assert!(second.starts_with("figure_") && second.ends_with(".gif"));
    assert_ne!(first, second);
    assert_eq!(
        conversion.content.content,
        format!(
            "#code-block(\"\", lang: \"text\", count: 1)\n#image(\"./downloads/{}\")#```p```#image(\"./downloads/{}\")",
            first, second
        )
    );
}
