//! Rendering of a Markdown syntax tree as Typst markup.
//!
//! A first pass over the whole tree collects the link definitions and the
//! footnotes into lookup tables; the second pass renders, and resolves
//! references against the tables. Raw HTML tags open and close inline
//! styles; the tags that are open are carried from node to node. Content
//! that cannot be rendered leaves no text and is reported instead.

use vstd::prelude::*;
use crate::diagnostic::{report, reports_view, Diagnostic, DiagnosticKind};
use crate::escape::{escape_html, escaped, escaped_prose, push_escaped, Place};
use crate::mdast::{
    enter, find, lemma_node_view, lookup, AlignKind, Entries, MdKind, MdLabel, MdNode, MdTree,
    Tables, TablesView,
};
use crate::text::{
    decimal, joined, pop_char, push_decimal, push_repeated, push_replaced, repeated, replaced,
    starts_with, str_eq, strings_view, strip_prefix, strip_trailing_newlines,
    without_trailing_newlines,
};
use crate::media::{parse_url, url_scheme};
use std::borrow::Cow;
use std::collections::VecDeque;

verus! {

/// What rendering a piece of a document gives: its markup, the HTML tags
/// that are open after it, and the reports about what was left out.
#[verifier::ext_equal]
pub ghost struct MdOut {
    pub text: Seq<char>,
    pub queue: Seq<Seq<char>>,
    pub notes: Seq<(DiagnosticKind, Seq<char>)>,
}

/// How the children of a node are put together.
#[derive(Clone, Copy, Debug, PartialEq, Eq, Structural)]
pub enum ChildStyle {
    /// One after the other.
    Plain,
    /// Each followed by a line feed.
    Line,
    /// Each as an item of a list, ordered or not.
    Item(bool),
    /// Each as a data row of a table with the given number of columns.
    Row(usize),
}

/// The mathematical value of a [`ChildStyle`].
pub ghost enum Style {
    Plain,
    Line,
    Item(bool),
    Row(nat),
}

impl View for ChildStyle {
    type V = Style;

    open spec fn view(&self) -> Style {
        match self {
            ChildStyle::Plain => Style::Plain,
            ChildStyle::Line => Style::Line,
            ChildStyle::Item(ordered) => Style::Item(*ordered),
            ChildStyle::Row(width) => Style::Row(*width as nat),
        }
    }
}

/// Markup alone: the open tags stay, nothing is reported.
pub open spec fn leaf(text: Seq<char>, queue: Seq<Seq<char>>) -> MdOut {
    MdOut { text, queue, notes: Seq::empty() }
}

/// No markup, and one report.
pub open spec fn noted(queue: Seq<Seq<char>>, kind: DiagnosticKind, subject: Seq<char>) -> MdOut {
    MdOut { text: Seq::empty(), queue, notes: seq![(kind, subject)] }
}

/// The markup of `inner` between an opening and a closing text.
pub open spec fn around(open: Seq<char>, inner: MdOut, close: Seq<char>) -> MdOut {
    MdOut { text: open + inner.text + close, queue: inner.queue, notes: inner.notes }
}

/// An opening HTML tag: its markup, and the tag joins the open ones.
pub open spec fn opening(text: Seq<char>, tag: Seq<char>, queue: Seq<Seq<char>>) -> MdOut {
    MdOut { text, queue: queue.push(tag), notes: Seq::empty() }
}

/// A closing HTML tag: its markup, and the oldest open tag is closed. With
/// no tag open it leaves no markup and is reported.
pub open spec fn closing(text: Seq<char>, tag: Seq<char>, queue: Seq<Seq<char>>) -> MdOut {
    if queue.len() > 0 {
        MdOut { text, queue: queue.drop_first(), notes: Seq::empty() }
    } else {
        noted(queue, DiagnosticKind::UnmatchedTag, tag)
    }
}

/// The rendering of a raw HTML fragment: a line break, or the opening or
/// closing tag of bold, italic or underlined text. Any other fragment
/// leaves no markup and is reported.
pub open spec fn html_fragment(value: Seq<char>, queue: Seq<Seq<char>>) -> MdOut {
    if value == "<br>"@ {
        leaf("\\\n"@, queue)
    } else if value == "<b>"@ {
        opening("*"@, value, queue)
    } else if value == "</b>"@ {
        closing("*"@, value, queue)
    } else if value == "<i>"@ {
        opening("_"@, value, queue)
    } else if value == "</i>"@ {
        closing("_"@, value, queue)
    } else if value == "<u>"@ {
        opening("#underline["@, value, queue)
    } else if value == "</u>"@ {
        closing("]"@, value, queue)
    } else {
        noted(queue, DiagnosticKind::UnsupportedHtml, value)
    }
}

/// A centred figure with the image at the given path, in the given width.
pub open spec fn figure_text(path: Seq<char>, width: Seq<char>) -> Seq<char> {
    "#figure(align(center, image(\""@ + escaped(path, Place::Literal) + "\", width: "@ + width
        + ")))"@
}

/// The key under which the media table holds an image: the URL itself for
/// `http` and `https`, and what follows `attachment:` for another scheme.
pub open spec fn media_key(url: Seq<char>, scheme: Seq<char>) -> Option<Seq<char>> {
    if scheme == "http"@ || scheme == "https"@ {
        Some(url)
    } else if starts_with(url, "attachment:"@) {
        Some(url.skip("attachment:"@.len() as int))
    } else {
        None
    }
}

/// The rendering of an image, given the scheme of its URL. Text that is no
/// URL is a file path and is embedded as it is, at half width. A URL is
/// looked up in the media table and embedded by its local path at full
/// width; where the table has no path for it, the image leaves no markup
/// and is reported.
pub open spec fn image_out(
    url: Seq<char>,
    scheme: Option<Seq<char>>,
    media: Entries,
    queue: Seq<Seq<char>>,
) -> MdOut {
    match scheme {
        None => leaf(figure_text(url, "50%"@), queue),
        Some(scheme) => match media_key(url, scheme) {
            Some(key) => match lookup(media, key) {
                Some(path) => leaf(figure_text(path, "100%"@), queue),
                None => noted(queue, DiagnosticKind::UnresolvedImage, url),
            },
            None => noted(queue, DiagnosticKind::UnresolvedImage, url),
        },
    }
}

/// A link call with the given target around the markup of `inner`.
pub open spec fn link_out(url: Seq<char>, inner: MdOut) -> MdOut {
    around("#link(\""@ + escaped(url, Place::Literal) + "\")["@, inner, "]"@)
}

/// The name of a column alignment in Typst.
pub open spec fn align_name(align: AlignKind) -> Seq<char> {
    match align {
        AlignKind::Center => "center"@,
        AlignKind::Left => "left"@,
        AlignKind::Right => "right"@,
        AlignKind::Auto => "auto"@,
    }
}

/// The names of column alignments.
pub open spec fn align_names(align: Seq<AlignKind>) -> Seq<Seq<char>> {
    Seq::new(align.len(), |i: int| align_name(align[i]))
}

/// What a table starts with: the number of columns and their alignment.
pub open spec fn table_head(align: Seq<AlignKind>) -> Seq<char> {
    "#table(\n  columns: "@ + decimal(align.len()) + ",\n  align: ("@ + joined(
        align_names(align),
        ", "@,
        align.len(),
    ) + "),\n"@
}

/// `k` empty cells.
pub open spec fn empty_cells(k: nat) -> Seq<char>
    decreases k,
{
    if k == 0 {
        Seq::empty()
    } else {
        empty_cells((k - 1) as nat) + "[], "@
    }
}

/// `text` without its last character, if it has one.
pub open spec fn popped(text: Seq<char>) -> Seq<char> {
    if text.len() > 0 {
        text.drop_last()
    } else {
        text
    }
}

/// What the markup `text` of a child contributes to its parent.
pub open spec fn piece(style: Style, text: Seq<char>) -> Seq<char> {
    match style {
        Style::Plain => text,
        Style::Line => text + "\n"@,
        Style::Item(ordered) => (if ordered {
            "+ "@
        } else {
            "- "@
        }) + replaced(without_trailing_newlines(text), '\n', "\n  "@) + "\n"@,
        Style::Row(_) => text,
    }
}

/// What a child contributes to its parent, given its rendering.
pub open spec fn styled(style: Style, out: MdOut) -> MdOut {
    MdOut { text: piece(style, out.text), queue: out.queue, notes: out.notes }
}

/// The number of cells of its own that a row of `own` cells keeps in a
/// table of the given width.
pub open spec fn kept_cells(own: nat, width: nat) -> nat {
    if own <= width {
        own
    } else {
        width
    }
}

/// A data row of a table of the given width, given the rendering `cells`
/// of the cells that it keeps out of `own`: two spaces, the cells, an empty
/// cell for each that it lacks, a line feed. Where it has more cells than
/// the table is wide, the number of cells left out is reported.
pub open spec fn row_out(cells: MdOut, own: nat, width: nat) -> MdOut {
    MdOut {
        text: "  "@ + cells.text + empty_cells((width - kept_cells(own, width)) as nat) + "\n"@,
        queue: cells.queue,
        notes: cells.notes + (if own > width {
            seq![(DiagnosticKind::ExtraCells, decimal((own - width) as nat))]
        } else {
            Seq::empty()
        }),
    }
}

/// The rendering of a tree, given the lookup tables and the HTML tags that
/// are open before it.
pub open spec fn md_out(t: MdTree, tables: TablesView, queue: Seq<Seq<char>>) -> MdOut
    decreases t, 0nat,
{
    let plain = md_children(t.children, 0, t.children.len(), tables, queue, Style::Plain);
    match t.label {
        MdLabel::Root => md_children(t.children, 0, t.children.len(), tables, queue, Style::Line),
        MdLabel::Blockquote => around("#block-quote["@, plain, "]\n\n"@),
        MdLabel::Break => leaf("\\\n"@, queue),
        MdLabel::Code { lang, value } => leaf(
            "```"@ + (match lang {
                Some(lang) => lang,
                None => "text"@,
            }) + "\n"@ + value + "\n```\n\n"@,
            queue,
        ),
        MdLabel::Definition { .. } => leaf(Seq::empty(), queue),
        MdLabel::Delete => around("#strike["@, plain, "]"@),
        MdLabel::Emphasis => around("_"@, plain, "_"@),
        MdLabel::FootnoteDefinition { .. } => leaf(Seq::empty(), queue),
        MdLabel::FootnoteReference { identifier } => match lookup(tables.footnotes, identifier) {
            Some(body) => leaf(
                "#footnote(\""@ + escaped(body, Place::Literal) + "\")["@ + identifier + "]"@,
                queue,
            ),
            None => noted(queue, DiagnosticKind::UndefinedReference, identifier),
        },
        MdLabel::Heading { depth } => around(
            "\n\n"@ + repeated('=', depth as nat) + " "@,
            plain,
            "\n\n"@,
        ),
        MdLabel::Html { value } => html_fragment(value, queue),
        MdLabel::Image { url } => image_out(url, url_scheme(url), tables.media, queue),
        MdLabel::ImageReference { identifier } => match lookup(tables.definitions, identifier) {
            Some(url) => image_out(url, url_scheme(url), tables.media, queue),
            None => noted(queue, DiagnosticKind::UndefinedReference, identifier),
        },
        MdLabel::InlineCode { value } => leaf("`"@ + value + "`"@, queue),
        MdLabel::InlineMath { value } => leaf("#mi(`"@ + value + "`)"@, queue),
        MdLabel::Link { url } => link_out(url, plain),
        MdLabel::LinkReference { identifier } => match lookup(tables.definitions, identifier) {
            Some(url) => link_out(url, plain),
            None => noted(queue, DiagnosticKind::UndefinedReference, identifier),
        },
        MdLabel::List { ordered } => md_children(
            t.children,
            0,
            t.children.len(),
            tables,
            queue,
            Style::Item(ordered),
        ),
        MdLabel::ListItem => plain,
        MdLabel::Math { value } => leaf("#mimath(`$$\n"@ + value + "\n$$`)"@, queue),
        MdLabel::Paragraph => around(Seq::empty(), plain, "\n"@),
        MdLabel::Strong => around("*"@, plain, "*"@),
        MdLabel::Table { align } => if t.children.len() == 0 {
            noted(queue, DiagnosticKind::EmptyTable, Seq::empty())
        } else {
            let header = md_out(t.children[0], tables, queue);
            let rows = md_children(
                t.children,
                1,
                t.children.len(),
                tables,
                header.queue,
                Style::Row(t.children[0].children.len()),
            );
            MdOut {
                text: table_head(align) + "  table.header(\n  "@ + popped(header.text)
                    + "\n  ),\n"@ + rows.text + ")\n\n"@,
                queue: rows.queue,
                notes: header.notes + rows.notes,
            }
        },
        MdLabel::TableCell => around("["@, plain, "], "@),
        MdLabel::TableRow => around("  "@, plain, "\n"@),
        MdLabel::Text { value } => leaf(escaped_prose(value), queue),
        MdLabel::ThematicBreak => leaf("#line(length: 100%)\n"@, queue),
        MdLabel::Unsupported { name } => noted(queue, DiagnosticKind::UnsupportedNode, name),
    }
}

/// The rendering of the children from position `from` up to position `n`,
/// each after the other, put together in the given style. Among the data
/// rows of a table, a table row keeps as many of its cells as the table is
/// wide, and only those are rendered.
pub open spec fn md_children(
    children: Seq<MdTree>,
    from: nat,
    n: nat,
    tables: TablesView,
    queue: Seq<Seq<char>>,
    style: Style,
) -> MdOut
    decreases children, n,
{
    if n <= from || n > children.len() {
        leaf(Seq::empty(), queue)
    } else {
        let before = md_children(children, from, (n - 1) as nat, tables, queue, style);
        let child = children[n - 1];
        let last = match style {
            Style::Row(width) => if child.label is TableRow {
                row_out(
                    md_children(
                        child.children,
                        0,
                        kept_cells(child.children.len(), width),
                        tables,
                        before.queue,
                        Style::Plain,
                    ),
                    child.children.len(),
                    width,
                )
            } else {
                md_out(child, tables, before.queue)
            },
            _ => styled(style, md_out(child, tables, before.queue)),
        };
        MdOut {
            text: before.text + last.text,
            queue: last.queue,
            notes: before.notes + last.notes,
        }
    }
}

/// The state that a rendering carries from node to node: the HTML tags
/// that are open, oldest first, and the reports made so far.
#[derive(Debug)]
pub struct RenderState {
    pub html_queue: VecDeque<String>,
    pub diagnostics: Vec<Diagnostic>,
}

impl RenderState {
    /// The open HTML tags.
    pub open spec fn queue(&self) -> Seq<Seq<char>> {
        strings_view(self.html_queue@)
    }

    /// The reports made so far.
    pub open spec fn notes(&self) -> Seq<(DiagnosticKind, Seq<char>)> {
        reports_view(self.diagnostics@)
    }

    /// The state at the start: no tag open, nothing reported.
    pub fn new() -> (state: RenderState)
        ensures
            state.queue() == Seq::<Seq<char>>::empty(),
            state.notes() == Seq::<(DiagnosticKind, Seq<char>)>::empty(),
    {
        let state = RenderState { html_queue: VecDeque::new(), diagnostics: Vec::new() };
        assert(state.queue() =~= Seq::<Seq<char>>::empty());
        assert(state.notes() =~= Seq::<(DiagnosticKind, Seq<char>)>::empty());
        state
    }
}

/// Whether a step that returned `text` and took the state from `before` to
/// `after` did what `out` says.
pub open spec fn produces(text: Seq<char>, before: RenderState, after: RenderState, out: MdOut) -> bool {
    &&& text == out.text
    &&& after.queue() == out.queue
    &&& after.notes() == before.notes() + out.notes
}

/// Reports content that leaves no markup.
fn leave_out(state: &mut RenderState, kind: DiagnosticKind, subject: &str) -> (text: String)
    ensures
        produces(text@, *old(state), *final(state), noted(old(state).queue(), kind, subject@)),
{
    report(&mut state.diagnostics, kind, subject);
    assert(state.notes() =~= old(state).notes() + seq![(kind, subject@)]);
    String::new()
}

/// Renders an opening HTML tag.
fn open_tag(state: &mut RenderState, text: &str, tag: &str) -> (out: String)
    ensures
        produces(out@, *old(state), *final(state), opening(text@, tag@, old(state).queue())),
{
    state.html_queue.push_back(tag.to_owned());
    assert(state.queue() =~= old(state).queue().push(tag@));
    assert(state.notes() =~= old(state).notes() + Seq::empty());
    text.to_owned()
}

/// Renders a closing HTML tag.
fn close_tag(state: &mut RenderState, text: &str, tag: &str) -> (out: String)
    ensures
        produces(out@, *old(state), *final(state), closing(text@, tag@, old(state).queue())),
{
    if state.html_queue.len() > 0 {
        state.html_queue.pop_front();
        assert(state.queue() =~= old(state).queue().drop_first());
        assert(state.notes() =~= old(state).notes() + Seq::empty());
        text.to_owned()
    } else {
        leave_out(state, DiagnosticKind::UnmatchedTag, tag)
    }
}

/// Renders a raw HTML fragment.
pub fn parse_html(html: &str, state: &mut RenderState) -> (text: String)
    ensures
        produces(text@, *old(state), *final(state), html_fragment(html@, old(state).queue())),
{
    if str_eq(html, "<br>") {
        assert(state.notes() =~= old(state).notes() + Seq::empty());
        "\\\n".to_owned()
    } else if str_eq(html, "<b>") {
        open_tag(state, "*", html)
    } else if str_eq(html, "</b>") {
        close_tag(state, "*", html)
    } else if str_eq(html, "<i>") {
        open_tag(state, "_", html)
    } else if str_eq(html, "</i>") {
        close_tag(state, "_", html)
    } else if str_eq(html, "<u>") {
        open_tag(state, "#underline[", html)
    } else if str_eq(html, "</u>") {
        close_tag(state, "]", html)
    } else {
        leave_out(state, DiagnosticKind::UnsupportedHtml, html)
    }
}

/// A centred figure with the image at the given path, in the given width.
fn figure(path: &str, width: &str) -> (text: String)
    ensures
        text@ == figure_text(path@, width@),
{
    let mut text = String::new();
    text.append("#figure(align(center, image(\"");
    push_escaped(&mut text, path, Place::Literal);
    text.append("\", width: ");
    text.append(width);
    text.append(")))");
    assert(text@ =~= figure_text(path@, width@));
    text
}

/// Renders an image, given the scheme of its URL (`None` for text that is
/// no URL).
pub fn image_markup(
    url: &str,
    scheme: Option<&str>,
    media: &Vec<(String, String)>,
    state: &mut RenderState,
) -> (text: String)
    ensures
        produces(
            text@,
            *old(state),
            *final(state),
            image_out(
                url@,
                match scheme {
                    Some(s) => Some(s@),
                    None => None,
                },
                media.deep_view(),
                old(state).queue(),
            ),
        ),
{
    match scheme {
        None => {
            assert(state.notes() =~= old(state).notes() + Seq::empty());
            figure(url, "50%")
        },
        Some(scheme) => {
            let path = if str_eq(scheme, "http") || str_eq(scheme, "https") {
                find(media, url)
            } else {
                match strip_prefix(url, "attachment:") {
                    Some(name) => find(media, name.as_str()),
                    None => None,
                }
            };
            match path {
                Some(path) => {
                    assert(state.notes() =~= old(state).notes() + Seq::empty());
                    figure(path, "100%")
                },
                None => leave_out(state, DiagnosticKind::UnresolvedImage, url),
            }
        },
    }
}

/// Renders an image: finds the scheme of its URL and renders by it.
pub fn parse_image(url: &str, media: &Vec<(String, String)>, state: &mut RenderState) -> (text:
    String)
    ensures
        produces(
            text@,
            *old(state),
            *final(state),
            image_out(url@, url_scheme(url@), media.deep_view(), old(state).queue()),
        ),
{
    match &parse_url(url) {
        Some(parts) => image_markup(url, Some(parts.0.as_str()), media, state),
        None => image_markup(url, None, media, state),
    }
}

/// The name of a column alignment in Typst.
fn align_text(align: AlignKind) -> (name: &'static str)
    ensures
        name@ == align_name(align),
{
    match align {
        AlignKind::Center => "center",
        AlignKind::Left => "left",
        AlignKind::Right => "right",
        AlignKind::Auto => "auto",
    }
}

/// What a table starts with.
fn table_opening(align: &Vec<AlignKind>) -> (text: String)
    ensures
        text@ == table_head(align@),
{
    let mut text = String::new();
    text.append("#table(\n  columns: ");
    push_decimal(&mut text, align.len() as u64);
    text.append(",\n  align: (");
    let ghost head = text@;
    let ghost names = align_names(align@);
    let mut i: usize = 0;
    assert(text@ =~= head + joined(names, ", "@, 0));
    while i < align.len()
        invariant
            i <= align.len(),
            names == align_names(align@),
            text@ == head + joined(names, ", "@, i as nat),
        decreases align.len() - i,
    {
        if i > 0 {
            text.append(", ");
        }
        text.append(align_text(align[i]));
        i += 1;
        assert(text@ =~= head + joined(names, ", "@, i as nat));
    }
    text.append("),\n");
    assert(text@ =~= table_head(align@));
    text
}

/// Appends to `out` what the markup `text` of a child contributes to its
/// parent.
fn push_piece(out: &mut String, style: ChildStyle, text: String)
    ensures
        final(out)@ == old(out)@ + piece(style@, text@),
{
    match style {
        ChildStyle::Plain => {
            out.append(text.as_str());
        },
        ChildStyle::Line => {
            out.append(text.as_str());
            out.append("\n");
            assert(out@ =~= old(out)@ + (text@ + "\n"@));
        },
        ChildStyle::Item(ordered) => {
            if ordered {
                out.append("+ ");
            } else {
                out.append("- ");
            }
            let item = strip_trailing_newlines(text.as_str());
            push_replaced(out, item.as_str(), '\n', "\n  ");
            out.append("\n");
            assert(out@ =~= old(out)@ + piece(style@, text@));
        },
        ChildStyle::Row(_) => {
            out.append(text.as_str());
        },
    }
}

/// Renders a node: returns its markup, and carries on the open HTML tags
/// and the reports.
pub fn parse_ast(node: &MdNode, tables: &Tables, state: &mut RenderState) -> (text: String)
    ensures
        produces(
            text@,
            *old(state),
            *final(state),
            md_out(node@, tables@, old(state).queue()),
        ),
    decreases node, 3nat,
{
    match &node.kind {
        MdKind::Root => parse_children(node, 0, tables, state, ChildStyle::Line),
        MdKind::Blockquote => parse_around(node, tables, state, "#block-quote[", "]\n\n"),
        MdKind::Delete => parse_around(node, tables, state, "#strike[", "]"),
        MdKind::Emphasis => parse_around(node, tables, state, "_", "_"),
        MdKind::Heading { depth } => {
            let mut open = String::new();
            open.append("\n\n");
            push_repeated(&mut open, '=', *depth as usize);
            open.append(" ");
            assert(open@ =~= "\n\n"@ + repeated('=', *depth as nat) + " "@);
            parse_around(node, tables, state, open.as_str(), "\n\n")
        },
        MdKind::Link { url } => parse_link(node, url.as_str(), tables, state),
        MdKind::LinkReference { identifier } => {
            match find(&tables.definitions, identifier.as_str()) {
                Some(url) => parse_link(node, url, tables, state),
                None => leave_out(state, DiagnosticKind::UndefinedReference, identifier.as_str()),
            }
        },
        MdKind::List { ordered } => parse_children(
            node,
            0,
            tables,
            state,
            ChildStyle::Item(*ordered),
        ),
        MdKind::ListItem => parse_children(node, 0, tables, state, ChildStyle::Plain),
        MdKind::Paragraph => {
            let mut text = parse_children(node, 0, tables, state, ChildStyle::Plain);
            let ghost inner = text@;
            text.append("\n");
            assert(text@ =~= Seq::<char>::empty() + inner + "\n"@);
            text
        },
        MdKind::Strong => parse_around(node, tables, state, "*", "*"),
        MdKind::Table { align } => parse_table(node, align, tables, state),
        MdKind::TableCell => parse_around(node, tables, state, "[", "], "),
        MdKind::TableRow => parse_around(node, tables, state, "  ", "\n"),
        _ => parse_leaf(node, tables, state),
    }
}

/// Whether a node of this kind is rendered without a look at its children.
pub open spec fn is_leaf(label: MdLabel) -> bool {
    match label {
        MdLabel::Break
        | MdLabel::Code { .. }
        | MdLabel::Definition { .. }
        | MdLabel::FootnoteDefinition { .. }
        | MdLabel::FootnoteReference { .. }
        | MdLabel::Html { .. }
        | MdLabel::Image { .. }
        | MdLabel::ImageReference { .. }
        | MdLabel::InlineCode { .. }
        | MdLabel::InlineMath { .. }
        | MdLabel::Math { .. }
        | MdLabel::Text { .. }
        | MdLabel::ThematicBreak
        | MdLabel::Unsupported { .. } => true,
        _ => false,
    }
}

/// Renders a node of a kind that is rendered without a look at its
/// children.
fn parse_leaf(node: &MdNode, tables: &Tables, state: &mut RenderState) -> (text: String)
    requires
        is_leaf(node@.label),
    ensures
        produces(
            text@,
            *old(state),
            *final(state),
            md_out(node@, tables@, old(state).queue()),
        ),
{
    proof {
        assert(state.notes() =~= old(state).notes() + Seq::empty());
    }
    let mut text = String::new();
    match &node.kind {
        MdKind::Break => {
            text.append("\\\n");
        },
        MdKind::Code { lang, value } => {
            text.append("```");
            match lang {
                Some(lang) => text.append(lang.as_str()),
                None => text.append("text"),
            }
            text.append("\n");
            text.append(value.as_str());
            text.append("\n```\n\n");
            assert(text@ =~= "```"@ + (match node@.label->Code_lang {
                Some(lang) => lang,
                None => "text"@,
            }) + "\n"@ + value@ + "\n```\n\n"@);
        },
        MdKind::FootnoteReference { identifier } => {
            match find(&tables.footnotes, identifier.as_str()) {
                Some(body) => {
                    text.append("#footnote(\"");
                    push_escaped(&mut text, body, Place::Literal);
                    text.append("\")[");
                    text.append(identifier.as_str());
                    text.append("]");
                    assert(text@ =~= "#footnote(\""@ + escaped(body@, Place::Literal) + "\")["@
                        + identifier@ + "]"@);
                },
                None => {
                    return leave_out(
                        state,
                        DiagnosticKind::UndefinedReference,
                        identifier.as_str(),
                    );
                },
            }
        },
        MdKind::Html { value } => {
            return parse_html(value.as_str(), state);
        },
        MdKind::Image { url } => {
            return parse_image(url.as_str(), tables.media, state);
        },
        MdKind::ImageReference { identifier } => {
            match find(&tables.definitions, identifier.as_str()) {
                Some(url) => {
                    return parse_image(url, tables.media, state);
                },
                None => {
                    return leave_out(
                        state,
                        DiagnosticKind::UndefinedReference,
                        identifier.as_str(),
                    );
                },
            }
        },
        MdKind::InlineCode { value } => {
            text.append("`");
            text.append(value.as_str());
            text.append("`");
            assert(text@ =~= "`"@ + value@ + "`"@);
        },
        MdKind::InlineMath { value } => {
            text.append("#mi(`");
            text.append(value.as_str());
            text.append("`)");
            assert(text@ =~= "#mi(`"@ + value@ + "`)"@);
        },
        MdKind::Math { value } => {
            text.append("#mimath(`$$\n");
            text.append(value.as_str());
            text.append("\n$$`)");
            assert(text@ =~= "#mimath(`$$\n"@ + value@ + "\n$$`)"@);
        },
        MdKind::Text { value } => {
            match &escape_html(value.as_str()) {
                Cow::Borrowed(escaped) => text.append(escaped),
                Cow::Owned(escaped) => text.append(escaped.as_str()),
            }
        },
        MdKind::ThematicBreak => {
            text.append("#line(length: 100%)\n");
        },
        MdKind::Unsupported { name } => {
            return leave_out(state, DiagnosticKind::UnsupportedNode, name.as_str());
        },
        _ => {},
    }
    text
}

/// Renders the children of a node between an opening and a closing text.
fn parse_around(node: &MdNode, tables: &Tables, state: &mut RenderState, open: &str, close: &str) -> (text: String)
    ensures
        produces(
            text@,
            *old(state),
            *final(state),
            around(
                open@,
                md_children(
                    node@.children,
                    0,
                    node@.children.len(),
                    tables@,
                    old(state).queue(),
                    Style::Plain,
                ),
                close@,
            ),
        ),
    decreases node, 2nat,
{
    let inner = parse_children(node, 0, tables, state, ChildStyle::Plain);
    let mut text = String::new();
    text.append(open);
    text.append(inner.as_str());
    text.append(close);
    assert(text@ =~= open@ + inner@ + close@);
    text
}

/// Renders a link with the given target around the children of a node.
fn parse_link(node: &MdNode, url: &str, tables: &Tables, state: &mut RenderState) -> (text: String)
    ensures
        produces(
            text@,
            *old(state),
            *final(state),
            link_out(
                url@,
                md_children(
                    node@.children,
                    0,
                    node@.children.len(),
                    tables@,
                    old(state).queue(),
                    Style::Plain,
                ),
            ),
        ),
    decreases node, 2nat,
{
    let inner = parse_children(node, 0, tables, state, ChildStyle::Plain);
    let mut text = String::new();
    text.append("#link(\"");
    push_escaped(&mut text, url, Place::Literal);
    text.append("\")[");
    let ghost open = text@;
    assert(open =~= "#link(\""@ + escaped(url@, Place::Literal) + "\")["@);
    text.append(inner.as_str());
    text.append("]");
    assert(text@ =~= open + inner@ + "]"@);
    text
}

/// Renders a table: its head, its first row as the header, and the other
/// rows as data rows, each filled up with empty cells to the width of the
/// header. A table without rows leaves no markup and is reported.
fn parse_table(node: &MdNode, align: &Vec<AlignKind>, tables: &Tables, state: &mut RenderState) -> (text: String)
    requires
        node@.label == (MdLabel::Table { align: align@ }),
    ensures
        produces(
            text@,
            *old(state),
            *final(state),
            md_out(node@, tables@, old(state).queue()),
        ),
    decreases node, 2nat,
{
    proof {
        lemma_node_view(*node);
    }
    if node.children.len() == 0 {
        proof {
            reveal_strlit("");
            assert(""@ =~= Seq::<char>::empty());
        }
        return leave_out(state, DiagnosticKind::EmptyTable, "");
    }
    let ghost queue = state.queue();
    let ghost notes = state.notes();
    proof {
        lemma_node_view(node.children@[0]);
    }
    let mut header = parse_ast(&node.children[0], tables, state);
    let ghost header_out = md_out(node@.children[0], tables@, queue);
    let ghost header_text = header@;
    pop_char(&mut header);
    assert(header@ == popped(header_text));
    let width = node.children[0].children.len();
    let rows = parse_children(node, 1, tables, state, ChildStyle::Row(width));
    let mut text = table_opening(align);
    text.append("  table.header(\n  ");
    text.append(header.as_str());
    text.append("\n  ),\n");
    text.append(rows.as_str());
    text.append(")\n\n");
    proof {
        assert(text@ =~= table_head(align@) + "  table.header(\n  "@ + popped(header_text)
            + "\n  ),\n"@ + rows@ + ")\n\n"@);
        let rows_out = md_children(
            node@.children,
            1,
            node@.children.len(),
            tables@,
            header_out.queue,
            Style::Row(node@.children[0].children.len()),
        );
        assert(state.notes() =~= notes + (header_out.notes + rows_out.notes));
    }
    text
}

/// Renders the children of a node from position `from` on, each after the
/// other, and puts them together in the given style.
pub fn parse_children(
    node: &MdNode,
    from: usize,
    tables: &Tables,
    state: &mut RenderState,
    style: ChildStyle,
) -> (text: String)
    ensures
        produces(
            text@,
            *old(state),
            *final(state),
            md_children(
                node@.children,
                from as nat,
                node@.children.len(),
                tables@,
                old(state).queue(),
                style@,
            ),
        ),
    decreases node, 1nat,
{
    proof {
        lemma_node_view(*node);
    }
    parse_range(node, from, node.children.len(), tables, state, style)
}

/// Renders a table row as a data row of a table of the given width: the
/// cells that it keeps, an empty cell for each that it lacks, and a report
/// where cells are left out.
fn parse_row(row: &MdNode, width: usize, tables: &Tables, state: &mut RenderState) -> (text: String)
    ensures
        produces(
            text@,
            *old(state),
            *final(state),
            row_out(
                md_children(
                    row@.children,
                    0,
                    kept_cells(row@.children.len(), width as nat),
                    tables@,
                    old(state).queue(),
                    Style::Plain,
                ),
                row@.children.len(),
                width as nat,
            ),
        ),
    decreases row, 1nat,
{
    proof {
        lemma_node_view(*row);
    }
    let own = row.children.len();
    let kept = if own <= width {
        own
    } else {
        width
    };
    let ghost notes = state.notes();
    let cells = parse_range(row, 0, kept, tables, state, ChildStyle::Plain);
    let ghost cells_out = md_children(
        row@.children,
        0,
        kept as nat,
        tables@,
        old(state).queue(),
        Style::Plain,
    );
    let mut text = String::new();
    text.append("  ");
    text.append(cells.as_str());
    let ghost start = text@;
    let missing = width - kept;
    let mut k: usize = 0;
    assert(text@ =~= start + empty_cells(0));
    while k < missing
        invariant
            k <= missing,
            text@ == start + empty_cells(k as nat),
        decreases missing - k,
    {
        text.append("[], ");
        k += 1;
        assert(text@ =~= start + empty_cells(k as nat));
    }
    text.append("\n");
    assert(text@ =~= "  "@ + cells@ + empty_cells(missing as nat) + "\n"@);
    if own > width {
        let mut extra = String::new();
        push_decimal(&mut extra, (own - width) as u64);
        assert(extra@ =~= decimal((own - width) as nat));
        report(&mut state.diagnostics, DiagnosticKind::ExtraCells, extra.as_str());
        assert(state.notes() =~= notes + (cells_out.notes + seq![
            (DiagnosticKind::ExtraCells, extra@),
        ]));
    } else {
        assert(state.notes() =~= notes + (cells_out.notes + Seq::empty()));
    }
    text
}

/// Renders the children of a node from position `from` up to position
/// `to`, each after the other, and puts them together in the given style.
/// A range that ends behind the last child is empty.
pub fn parse_range(
    node: &MdNode,
    from: usize,
    to: usize,
    tables: &Tables,
    state: &mut RenderState,
    style: ChildStyle,
) -> (text: String)
    ensures
        produces(
            text@,
            *old(state),
            *final(state),
            md_children(
                node@.children,
                from as nat,
                to as nat,
                tables@,
                old(state).queue(),
                style@,
            ),
        ),
    decreases node, 0nat,
{
    let ghost kids = node@.children;
    let ghost queue = state.queue();
    let mut text = String::new();
    let mut i: usize = from;
    proof {
        lemma_node_view(*node);
        assert(state.notes() =~= old(state).notes() + Seq::empty());
        assert(text@ =~= Seq::<char>::empty());
    }
    if from >= to || to > node.children.len() {
        return text;
    }
    while i < to
        invariant
            from <= i <= to <= node.children.len(),
            kids == node@.children,
            kids.len() == node.children.len(),
            produces(
                text@,
                *old(state),
                *state,
                md_children(kids, from as nat, i as nat, tables@, queue, style@),
            ),
        decreases to - i,
    {
        let ghost before = md_children(kids, from as nat, i as nat, tables@, queue, style@);
        proof {
            lemma_node_view(*node);
            lemma_node_view(node.children@[i as int]);
        }
        let child = &node.children[i];
        let is_row = match &child.kind {
            MdKind::TableRow => true,
            _ => false,
        };
        match style {
            ChildStyle::Row(width) => {
                let piece = if is_row {
                    parse_row(child, width, tables, state)
                } else {
                    parse_ast(child, tables, state)
                };
                text.append(piece.as_str());
            },
            _ => {
                let piece = parse_ast(child, tables, state);
                push_piece(&mut text, style, piece);
            },
        }
        i += 1;
        proof {
            let after = md_children(kids, from as nat, i as nat, tables@, queue, style@);
            assert(state.notes() =~= old(state).notes() + after.notes);
        }
    }
    text
}

/// What the first pass has gathered: the lookup tables, the HTML tags that
/// are open, and the reports.
#[verifier::ext_equal]
pub ghost struct Collected {
    pub tables: TablesView,
    pub queue: Seq<Seq<char>>,
    pub notes: Seq<(DiagnosticKind, Seq<char>)>,
}

/// What the first pass has gathered, with one more link definition.
pub open spec fn with_definition(acc: Collected, identifier: Seq<char>, url: Seq<char>) -> Collected {
    Collected {
        tables: TablesView {
            definitions: acc.tables.definitions.push((identifier, url)),
            footnotes: acc.tables.footnotes,
            media: acc.tables.media,
        },
        queue: acc.queue,
        notes: acc.notes,
    }
}

/// What the first pass has gathered, with one more footnote, whose body
/// has been rendered to `body`.
pub open spec fn with_footnote(acc: Collected, identifier: Seq<char>, body: MdOut) -> Collected {
    Collected {
        tables: TablesView {
            definitions: acc.tables.definitions,
            footnotes: acc.tables.footnotes.push((identifier, body.text)),
            media: acc.tables.media,
        },
        queue: body.queue,
        notes: acc.notes + body.notes,
    }
}

/// The first pass over a tree: every link definition enters its URL and
/// every footnote definition its rendered body, in document order, a node
/// before its children. A footnote body is rendered against the tables as
/// they stand when its definition is reached.
pub open spec fn md_collect(t: MdTree, acc: Collected) -> Collected
    decreases t, 0nat,
{
    let start = match t.label {
        MdLabel::Definition { identifier, url } => with_definition(acc, identifier, url),
        MdLabel::FootnoteDefinition { identifier } => with_footnote(
            acc,
            identifier,
            md_children(t.children, 0, t.children.len(), acc.tables, acc.queue, Style::Plain),
        ),
        _ => acc,
    };
    md_collect_children(t.children, t.children.len(), start)
}

/// The first pass over the first `n` of `children`.
pub open spec fn md_collect_children(children: Seq<MdTree>, n: nat, acc: Collected) -> Collected
    decreases children, n,
{
    if n == 0 || n > children.len() {
        acc
    } else {
        md_collect(children[n - 1], md_collect_children(children, (n - 1) as nat, acc))
    }
}

/// What tables and state hold together.
pub open spec fn collected(tables: Tables, state: RenderState) -> Collected {
    Collected { tables: tables@, queue: state.queue(), notes: state.notes() }
}

/// The first pass: walks the whole tree and enters every link definition
/// and every footnote into the tables.
pub fn parse_definition(node: &MdNode, tables: &mut Tables, state: &mut RenderState)
    ensures
        collected(*final(tables), *final(state)) == md_collect(
            node@,
            collected(*old(tables), *old(state)),
        ),
    decreases node,
{
    let ghost acc = collected(*tables, *state);
    let ghost kids = node@.children;
    proof {
        lemma_node_view(*node);
    }
    match &node.kind {
        MdKind::Definition { identifier, url } => {
            enter(&mut tables.definitions, identifier.as_str(), url.clone());
            assert(collected(*tables, *state) =~= with_definition(acc, identifier@, url@));
        },
        MdKind::FootnoteDefinition { identifier } => {
            let body = parse_children(node, 0, tables, state, ChildStyle::Plain);
            let ghost out = md_children(kids, 0, kids.len(), acc.tables, acc.queue, Style::Plain);
            enter(&mut tables.footnotes, identifier.as_str(), body);
            assert(collected(*tables, *state) =~= with_footnote(acc, identifier@, out));
        },
        _ => {},
    }
    let ghost start = collected(*tables, *state);
    let mut i: usize = 0;
    while i < node.children.len()
        invariant
            i <= node.children.len(),
            kids == node@.children,
            kids.len() == node.children.len(),
            collected(*tables, *state) == md_collect_children(kids, i as nat, start),
        decreases node.children.len() - i,
    {
        proof {
            lemma_node_view(*node);
        }
        parse_definition(&node.children[i], tables, state);
        i += 1;
    }
}

/// The rendering of a document with the given media table: the first pass
/// fills the tables, the second renders against them.
pub open spec fn md_document(t: MdTree, media: Entries) -> MdOut {
    let first = md_collect(
        t,
        Collected {
            tables: TablesView { definitions: Seq::empty(), footnotes: Seq::empty(), media },
            queue: Seq::empty(),
            notes: Seq::empty(),
        },
    );
    let second = md_out(t, first.tables, first.queue);
    MdOut { text: second.text, queue: second.queue, notes: first.notes + second.notes }
}

/// The markup of a document and the reports about what was left out of it.
#[derive(Debug)]
pub struct Markup {
    pub text: String,
    pub diagnostics: Vec<Diagnostic>,
}

/// Renders a Markdown document, with the reports about what was left out.
/// `media` holds the local path of each image that has one, under its URL
/// or, for an attachment, under its file name.
pub fn convert_markdown(ast: &MdNode, media: &Vec<(String, String)>) -> (markup: Markup)
    ensures
        markup.text@ == md_document(ast@, media.deep_view()).text,
        reports_view(markup.diagnostics@) == md_document(ast@, media.deep_view()).notes,
{
    let mut tables = Tables { definitions: Vec::new(), footnotes: Vec::new(), media };
    let mut state = RenderState::new();
    proof {
        assert(collected(tables, state) =~= Collected {
            tables: TablesView {
                definitions: Seq::empty(),
                footnotes: Seq::empty(),
                media: media.deep_view(),
            },
            queue: Seq::empty(),
            notes: Seq::empty(),
        });
    }
    parse_definition(ast, &mut tables, &mut state);
    let text = parse_ast(ast, &tables, &mut state);
    Markup { text, diagnostics: state.diagnostics }
}

/// Renders a Markdown document as Typst markup. Content that cannot be
/// rendered is left out; `convert_markdown` reports it.
pub fn parse_markdown(ast: &MdNode, media: &Vec<(String, String)>) -> (typst: String)
    ensures
        typst@ == md_document(ast@, media.deep_view()).text,
{
    convert_markdown(ast, media).text
}

/// Whether a tree holds the definition of the footnote `identifier`.
pub open spec fn defines_footnote(t: MdTree, identifier: Seq<char>) -> bool
    decreases t, 0nat,
{
    t.label == (MdLabel::FootnoteDefinition { identifier }) || children_define_footnote(
        t.children,
        t.children.len(),
        identifier,
    )
}

/// Whether one of the first `n` of `children` holds the definition of the
/// footnote `identifier`.
pub open spec fn children_define_footnote(
    children: Seq<MdTree>,
    n: nat,
    identifier: Seq<char>,
) -> bool
    decreases children, n,
{
    if n == 0 || n > children.len() {
        false
    } else {
        children_define_footnote(children, (n - 1) as nat, identifier) || defines_footnote(
            children[n - 1],
            identifier,
        )
    }
}

/// After the first pass the footnote table holds an identifier exactly
/// when it held it before or the tree defines it.
pub proof fn lemma_collect_footnotes(t: MdTree, acc: Collected, identifier: Seq<char>)
    ensures
        lookup(md_collect(t, acc).tables.footnotes, identifier) is Some <==> (lookup(
            acc.tables.footnotes,
            identifier,
        ) is Some || defines_footnote(t, identifier)),
    decreases t, 0nat,
{
    let start = match t.label {
        MdLabel::Definition { identifier: id, url } => with_definition(acc, id, url),
        MdLabel::FootnoteDefinition { identifier: id } => with_footnote(
            acc,
            id,
            md_children(t.children, 0, t.children.len(), acc.tables, acc.queue, Style::Plain),
        ),
        _ => acc,
    };
    match t.label {
        MdLabel::FootnoteDefinition { identifier: id } => {
            let entries = start.tables.footnotes;
            assert(entries.drop_last() =~= acc.tables.footnotes);
            assert(entries.last().0 == id);
        },
        _ => {},
    }
    lemma_collect_children_footnotes(t.children, t.children.len(), start, identifier);
}

/// The same for the first `n` of `children`.
pub proof fn lemma_collect_children_footnotes(
    children: Seq<MdTree>,
    n: nat,
    acc: Collected,
    identifier: Seq<char>,
)
    ensures
        lookup(md_collect_children(children, n, acc).tables.footnotes, identifier) is Some <==> (
        lookup(acc.tables.footnotes, identifier) is Some || children_define_footnote(
            children,
            n,
            identifier,
        )),
    decreases children, n,
{
    if n == 0 || n > children.len() {
    } else {
        lemma_collect_children_footnotes(children, (n - 1) as nat, acc, identifier);
        lemma_collect_footnotes(
            children[n - 1],
            md_collect_children(children, (n - 1) as nat, acc),
            identifier,
        );
    }
}

/// A reference to a footnote renders to markup exactly when the document
/// defines the footnote, wherever the definition stands: with `tables` as
/// the first pass over `doc` leaves them, a reference to `identifier` has
/// markup if `doc` holds a definition of it, and otherwise has none and is
/// reported.
pub proof fn lemma_footnote_closure(
    doc: MdTree,
    media: Entries,
    identifier: Seq<char>,
    queue: Seq<Seq<char>>,
)
    ensures
        ({
            let tables = md_collect(
                doc,
                Collected {
                    tables: TablesView {
                        definitions: Seq::empty(),
                        footnotes: Seq::empty(),
                        media,
                    },
                    queue: Seq::empty(),
                    notes: Seq::empty(),
                },
            ).tables;
            let reference = MdTree {
                label: MdLabel::FootnoteReference { identifier },
                children: Seq::empty(),
            };
            let out = md_out(reference, tables, queue);
            &&& defines_footnote(doc, identifier) ==> out.text.len() > 0 && out.notes.len() == 0
            &&& !defines_footnote(doc, identifier) ==> out.text.len() == 0 && out.notes
                == seq![(DiagnosticKind::UndefinedReference, identifier)]
            &&& out.queue == queue
        }),
{
    let start = Collected {
        tables: TablesView { definitions: Seq::empty(), footnotes: Seq::empty(), media },
        queue: Seq::empty(),
        notes: Seq::empty(),
    };
    lemma_collect_footnotes(doc, start, identifier);
    reveal_strlit("]");
}

/// The rendering of a table row as a data row of a table of the given
/// width.
pub open spec fn data_row(
    row: MdTree,
    tables: TablesView,
    queue: Seq<Seq<char>>,
    width: nat,
) -> MdOut {
    row_out(
        md_children(
            row.children,
            0,
            kept_cells(row.children.len(), width),
            tables,
            queue,
            Style::Plain,
        ),
        row.children.len(),
        width,
    )
}

/// The cells that a data row of a table of the given width comes out with:
/// as many as the table is wide, each the markup of the row's own cell at
/// that place, or an empty cell where the row has none.
pub open spec fn row_cells(
    row: MdTree,
    tables: TablesView,
    queue: Seq<Seq<char>>,
    width: nat,
) -> Seq<Seq<char>> {
    Seq::new(
        width,
        |j: int|
            if 0 <= j < row.children.len() {
                md_out(
                    row.children[j],
                    tables,
                    md_children(row.children, 0, j as nat, tables, queue, Style::Plain).queue,
                ).text
            } else {
                "[], "@
            },
    )
}

/// The first `k` cells of a row, for `k` up to the number of cells that it
/// keeps, are the markup of its first `k` children.
pub proof fn lemma_own_cells(
    row: MdTree,
    tables: TablesView,
    queue: Seq<Seq<char>>,
    width: nat,
    k: nat,
)
    requires
        k <= kept_cells(row.children.len(), width),
    ensures
        crate::text::concat(row_cells(row, tables, queue, width), k) == md_children(
            row.children,
            0,
            k,
            tables,
            queue,
            Style::Plain,
        ).text,
    decreases k,
{
    if k > 0 {
        lemma_own_cells(row, tables, queue, width, (k - 1) as nat);
    }
}

/// The cells of a row beyond those that it keeps are empty cells.
pub proof fn lemma_filled_cells(
    row: MdTree,
    tables: TablesView,
    queue: Seq<Seq<char>>,
    width: nat,
    k: nat,
)
    requires
        k <= width - kept_cells(row.children.len(), width),
    ensures
        crate::text::concat(
            row_cells(row, tables, queue, width),
            kept_cells(row.children.len(), width) + k,
        ) == md_children(
            row.children,
            0,
            kept_cells(row.children.len(), width),
            tables,
            queue,
            Style::Plain,
        ).text + empty_cells(k),
    decreases k,
{
    let kept = kept_cells(row.children.len(), width);
    let own = md_children(row.children, 0, kept, tables, queue, Style::Plain).text;
    if k == 0 {
        lemma_own_cells(row, tables, queue, width, kept);
        assert(own + empty_cells(0) =~= own);
    } else {
        lemma_filled_cells(row, tables, queue, width, (k - 1) as nat);
        assert(own + empty_cells((k - 1) as nat) + "[], "@ =~= own + empty_cells(k));
    }
}

/// Every data row of a table comes out with exactly as many cells as the
/// header row has: a table row contributes two spaces, `width` cells and a
/// line feed to a table of that width. The cells are its own as far as it
/// has them, and empty ones beyond; cells that it has beyond the width are
/// left out and reported.
pub proof fn lemma_row_width(row: MdTree, tables: TablesView, queue: Seq<Seq<char>>, width: nat)
    ensures
        row_cells(row, tables, queue, width).len() == width,
        forall|j: int|
            row.children.len() <= j < width ==> row_cells(row, tables, queue, width)[j] == "[], "@,
        data_row(row, tables, queue, width).text == "  "@ + crate::text::concat(
            row_cells(row, tables, queue, width),
            width,
        ) + "\n"@,
        row.children.len() > width <==> data_row(row, tables, queue, width).notes.len()
            > md_children(
            row.children,
            0,
            kept_cells(row.children.len(), width),
            tables,
            queue,
            Style::Plain,
        ).notes.len(),
{
    let kept = kept_cells(row.children.len(), width);
    lemma_filled_cells(row, tables, queue, width, (width - kept) as nat);
}

/// In a table, the data rows are rendered as wide as the header: the
/// child at position `i` of a table, where it is a table row and not the
/// first, contributes `data_row` of the width of the first child.
pub proof fn lemma_table_rows(
    children: Seq<MdTree>,
    i: nat,
    tables: TablesView,
    queue: Seq<Seq<char>>,
    width: nat,
)
    requires
        1 <= i < children.len(),
        children[i as int].label is TableRow,
    ensures
        ({
            let before = md_children(children, 1, i, tables, queue, Style::Row(width));
            let upto = md_children(children, 1, i + 1, tables, queue, Style::Row(width));
            let row = data_row(children[i as int], tables, before.queue, width);
            &&& upto.text == before.text + row.text
            &&& upto.queue == row.queue
            &&& upto.notes == before.notes + row.notes
        }),
{
}

/// Whether a scheme is one of those that are fetched over the network.
pub open spec fn is_remote(scheme: Option<Seq<char>>) -> bool {
    scheme == Some("http"@) || scheme == Some("https"@)
}

/// The link definitions of a tree, entered behind `acc` in document order.
pub open spec fn definitions_of(t: MdTree, acc: Entries) -> Entries
    decreases t, 0nat,
{
    definitions_in(
        t.children,
        t.children.len(),
        match t.label {
            MdLabel::Definition { identifier, url } => acc.push((identifier, url)),
            _ => acc,
        },
    )
}

/// The link definitions of the first `n` of `children`, entered behind
/// `acc`.
pub open spec fn definitions_in(children: Seq<MdTree>, n: nat, acc: Entries) -> Entries
    decreases children, n,
{
    if n == 0 || n > children.len() {
        acc
    } else {
        definitions_of(children[n - 1], definitions_in(children, (n - 1) as nat, acc))
    }
}

/// The link definitions that the first pass enters are those of
/// `definitions_of`.
pub proof fn lemma_collect_definitions(t: MdTree, acc: Collected)
    ensures
        md_collect(t, acc).tables.definitions == definitions_of(t, acc.tables.definitions),
    decreases t, 0nat,
{
    let start = match t.label {
        MdLabel::Definition { identifier, url } => with_definition(acc, identifier, url),
        MdLabel::FootnoteDefinition { identifier } => with_footnote(
            acc,
            identifier,
            md_children(t.children, 0, t.children.len(), acc.tables, acc.queue, Style::Plain),
        ),
        _ => acc,
    };
    lemma_collect_definitions_in(t.children, t.children.len(), start);
}

/// The same for the first `n` of `children`.
pub proof fn lemma_collect_definitions_in(children: Seq<MdTree>, n: nat, acc: Collected)
    ensures
        md_collect_children(children, n, acc).tables.definitions == definitions_in(
            children,
            n,
            acc.tables.definitions,
        ),
    decreases children, n,
{
    if n == 0 || n > children.len() {
    } else {
        lemma_collect_definitions_in(children, (n - 1) as nat, acc);
        lemma_collect_definitions(
            children[n - 1],
            md_collect_children(children, (n - 1) as nat, acc),
        );
    }
}

/// Enters the link definitions of a tree into a table, in document order.
pub fn collect_definitions(node: &MdNode, definitions: &mut Vec<(String, String)>)
    ensures
        final(definitions).deep_view() == definitions_of(node@, old(definitions).deep_view()),
    decreases node,
{
    let ghost kids = node@.children;
    proof {
        lemma_node_view(*node);
    }
    match &node.kind {
        MdKind::Definition { identifier, url } => {
            enter(definitions, identifier.as_str(), url.clone());
        },
        _ => {},
    }
    let ghost start = definitions.deep_view();
    let mut i: usize = 0;
    while i < node.children.len()
        invariant
            i <= node.children.len(),
            kids == node@.children,
            kids.len() == node.children.len(),
            definitions.deep_view() == definitions_in(kids, i as nat, start),
        decreases node.children.len() - i,
    {
        proof {
            lemma_node_view(*node);
        }
        collect_definitions(&node.children[i], definitions);
        i += 1;
    }
}

/// The URL of a node, if it is an image with a URL that is fetched over the
/// network: the URL of an image itself, and for an image reference the URL
/// that the table of link definitions holds for it.
pub open spec fn remote_image(label: MdLabel, definitions: Entries) -> Option<Seq<char>> {
    let url = match label {
        MdLabel::Image { url } => Some(url),
        MdLabel::ImageReference { identifier } => lookup(definitions, identifier),
        _ => None,
    };
    match url {
        Some(url) => if is_remote(url_scheme(url)) {
            Some(url)
        } else {
            None
        },
        None => None,
    }
}

/// The URLs of the images of a tree that are fetched over the network, in
/// document order.
pub open spec fn remote_images(t: MdTree, definitions: Entries) -> Seq<Seq<char>>
    decreases t, 0nat,
{
    (match remote_image(t.label, definitions) {
        Some(url) => seq![url],
        None => Seq::empty(),
    }) + remote_images_in(t.children, t.children.len(), definitions)
}

/// The remote image URLs of the first `n` of `children`.
pub open spec fn remote_images_in(children: Seq<MdTree>, n: nat, definitions: Entries) -> Seq<
    Seq<char>,
>
    decreases children, n,
{
    if n == 0 || n > children.len() {
        Seq::empty()
    } else {
        remote_images_in(children, (n - 1) as nat, definitions) + remote_images(
            children[n - 1],
            definitions,
        )
    }
}

/// Whether a URL is fetched over the network.
pub fn remote_url(url: &str) -> (yes: bool)
    ensures
        yes == is_remote(url_scheme(url@)),
{
    match &parse_url(url) {
        Some(parts) => str_eq(parts.0.as_str(), "http") || str_eq(parts.0.as_str(), "https"),
        None => false,
    }
}

/// Appends to `urls` the URLs of the images of a tree that have to be
/// fetched before the tree is rendered, in document order. Image
/// references are resolved against the given link definitions.
pub fn collect_remote_images(
    node: &MdNode,
    definitions: &Vec<(String, String)>,
    urls: &mut Vec<String>,
)
    ensures
        strings_view(final(urls)@) == strings_view(old(urls)@) + remote_images(
            node@,
            definitions.deep_view(),
        ),
    decreases node,
{
    let ghost kids = node@.children;
    let ghost table = definitions.deep_view();
    proof {
        lemma_node_view(*node);
    }
    let url: Option<&str> = match &node.kind {
        MdKind::Image { url } => Some(url.as_str()),
        MdKind::ImageReference { identifier } => find(definitions, identifier.as_str()),
        _ => None,
    };
    let remote: Option<&str> = match url {
        Some(url) => if remote_url(url) {
            Some(url)
        } else {
            None
        },
        None => None,
    };
    match remote {
        Some(url) => {
            urls.push(url.to_owned());
            assert(remote_image(node@.label, table) == Some(url@));
            assert(strings_view(urls@) =~= strings_view(old(urls)@) + seq![url@]);
        },
        None => {
            assert(remote_image(node@.label, table) is None);
            assert(strings_view(urls@) =~= strings_view(old(urls)@) + Seq::empty());
        },
    }
    let ghost start = strings_view(urls@);
    let mut i: usize = 0;
    assert(strings_view(urls@) =~= start + remote_images_in(kids, 0, table));
    while i < node.children.len()
        invariant
            i <= node.children.len(),
            kids == node@.children,
            kids.len() == node.children.len(),
            table == definitions.deep_view(),
            strings_view(urls@) == start + remote_images_in(kids, i as nat, table),
        decreases node.children.len() - i,
    {
        proof {
            lemma_node_view(*node);
        }
        collect_remote_images(&node.children[i], definitions, urls);
        i += 1;
        assert(strings_view(urls@) =~= start + remote_images_in(kids, i as nat, table));
    }
    assert(strings_view(urls@) =~= strings_view(old(urls)@) + remote_images(node@, table));
}

/// The URLs of the images of a document that have to be fetched before the
/// document is rendered, in document order, image references resolved
/// against the document's own link definitions.
pub fn remote_image_urls(ast: &MdNode) -> (urls: Vec<String>)
    ensures
        strings_view(urls@) == remote_images(ast@, definitions_of(ast@, Seq::empty())),
{
    let mut definitions: Vec<(String, String)> = Vec::new();
    assert(definitions.deep_view() =~= Seq::empty());
    collect_definitions(ast, &mut definitions);
    let mut urls: Vec<String> = Vec::new();
    assert(strings_view(urls@) =~= Seq::empty());
    collect_remote_images(ast, &definitions, &mut urls);
    assert(strings_view(urls@) =~= remote_images(ast@, definitions.deep_view()));
    urls
}

} // verus!
