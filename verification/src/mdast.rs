//! The Markdown syntax tree that the renderer walks, and the lookup tables
//! that go with it.

use vstd::prelude::*;
use crate::text::{lemma_take_step, str_eq};

verus! {

/// The alignment of a table column.
#[derive(Clone, Copy, Debug, PartialEq, Eq, Structural)]
pub enum AlignKind {
    Left,
    Right,
    Center,
    /// No alignment is given.
    Auto,
}

/// The kind of a node, with what the renderer reads of it besides its
/// children.
#[derive(Debug, PartialEq, Eq)]
pub enum MdKind {
    Root,
    Blockquote,
    Break,
    Code { lang: Option<String>, value: String },
    Definition { identifier: String, url: String },
    Delete,
    Emphasis,
    FootnoteDefinition { identifier: String },
    FootnoteReference { identifier: String },
    Heading { depth: u8 },
    Html { value: String },
    Image { url: String },
    ImageReference { identifier: String },
    InlineCode { value: String },
    InlineMath { value: String },
    Link { url: String },
    LinkReference { identifier: String },
    List { ordered: bool },
    ListItem,
    Math { value: String },
    Paragraph,
    Strong,
    Table { align: Vec<AlignKind> },
    TableCell,
    TableRow,
    Text { value: String },
    ThematicBreak,
    /// A node of a kind that has no rendering, with the name of the kind.
    Unsupported { name: String },
}

/// A node of a Markdown document: its kind, and its children in document
/// order (none for a leaf).
#[derive(Debug, PartialEq, Eq)]
pub struct MdNode {
    pub kind: MdKind,
    pub children: Vec<MdNode>,
}

/// The mathematical value of an [`MdKind`].
pub ghost enum MdLabel {
    Root,
    Blockquote,
    Break,
    Code { lang: Option<Seq<char>>, value: Seq<char> },
    Definition { identifier: Seq<char>, url: Seq<char> },
    Delete,
    Emphasis,
    FootnoteDefinition { identifier: Seq<char> },
    FootnoteReference { identifier: Seq<char> },
    Heading { depth: u8 },
    Html { value: Seq<char> },
    Image { url: Seq<char> },
    ImageReference { identifier: Seq<char> },
    InlineCode { value: Seq<char> },
    InlineMath { value: Seq<char> },
    Link { url: Seq<char> },
    LinkReference { identifier: Seq<char> },
    List { ordered: bool },
    ListItem,
    Math { value: Seq<char> },
    Paragraph,
    Strong,
    Table { align: Seq<AlignKind> },
    TableCell,
    TableRow,
    Text { value: Seq<char> },
    ThematicBreak,
    Unsupported { name: Seq<char> },
}

/// The mathematical value of an [`MdNode`].
pub ghost struct MdTree {
    pub label: MdLabel,
    pub children: Seq<MdTree>,
}

impl View for MdKind {
    type V = MdLabel;

    open spec fn view(&self) -> MdLabel {
        match self {
            MdKind::Root => MdLabel::Root,
            MdKind::Blockquote => MdLabel::Blockquote,
            MdKind::Break => MdLabel::Break,
            MdKind::Code { lang, value } => MdLabel::Code {
                lang: match lang {
                    Some(l) => Some(l@),
                    None => None,
                },
                value: value@,
            },
            MdKind::Definition { identifier, url } => MdLabel::Definition {
                identifier: identifier@,
                url: url@,
            },
            MdKind::Delete => MdLabel::Delete,
            MdKind::Emphasis => MdLabel::Emphasis,
            MdKind::FootnoteDefinition { identifier } => MdLabel::FootnoteDefinition {
                identifier: identifier@,
            },
            MdKind::FootnoteReference { identifier } => MdLabel::FootnoteReference {
                identifier: identifier@,
            },
            MdKind::Heading { depth } => MdLabel::Heading { depth: *depth },
            MdKind::Html { value } => MdLabel::Html { value: value@ },
            MdKind::Image { url } => MdLabel::Image { url: url@ },
            MdKind::ImageReference { identifier } => MdLabel::ImageReference {
                identifier: identifier@,
            },
            MdKind::InlineCode { value } => MdLabel::InlineCode { value: value@ },
            MdKind::InlineMath { value } => MdLabel::InlineMath { value: value@ },
            MdKind::Link { url } => MdLabel::Link { url: url@ },
            MdKind::LinkReference { identifier } => MdLabel::LinkReference {
                identifier: identifier@,
            },
            MdKind::List { ordered } => MdLabel::List { ordered: *ordered },
            MdKind::ListItem => MdLabel::ListItem,
            MdKind::Math { value } => MdLabel::Math { value: value@ },
            MdKind::Paragraph => MdLabel::Paragraph,
            MdKind::Strong => MdLabel::Strong,
            MdKind::Table { align } => MdLabel::Table { align: align@ },
            MdKind::TableCell => MdLabel::TableCell,
            MdKind::TableRow => MdLabel::TableRow,
            MdKind::Text { value } => MdLabel::Text { value: value@ },
            MdKind::ThematicBreak => MdLabel::ThematicBreak,
            MdKind::Unsupported { name } => MdLabel::Unsupported { name: name@ },
        }
    }
}

/// The value of a node: the value of its kind, and the values of its
/// children.
pub open spec fn md_tree(node: MdNode) -> MdTree
    decreases node,
{
    MdTree {
        label: node.kind@,
        children: Seq::new(
            node.children@.len(),
            |i: int|
                if 0 <= i < node.children@.len() {
                    md_tree(node.children@[i])
                } else {
                    MdTree { label: MdLabel::Break, children: Seq::empty() }
                },
        ),
    }
}

impl View for MdNode {
    type V = MdTree;

    open spec fn view(&self) -> MdTree {
        md_tree(*self)
    }
}

/// The value of a node has the value of the node's kind and the values of
/// its children.
pub proof fn lemma_node_view(node: MdNode)
    ensures
        node@.label == node.kind@,
        node@.children.len() == node.children@.len(),
        forall|i: int| 0 <= i < node.children@.len() ==> node@.children[i] == node.children@[i]@,
{
}

/// A lookup table from identifiers to values, as the pairs that were
/// entered, in the order of entry.
pub type Entries = Seq<(Seq<char>, Seq<char>)>;

/// The value that a table holds for a key: that of the last entry with the
/// key, since a later entry replaces an earlier one.
pub open spec fn lookup(entries: Entries, key: Seq<char>) -> Option<Seq<char>>
    decreases entries.len(),
{
    if entries.len() == 0 {
        None
    } else if entries.last().0 == key {
        Some(entries.last().1)
    } else {
        lookup(entries.drop_last(), key)
    }
}

/// The lookup tables of one rendering: link definitions (identifier to
/// URL), footnotes (identifier to rendered body) and media (URL or
/// attachment name to local path).
#[derive(Debug)]
pub struct Tables<'a> {
    pub definitions: Vec<(String, String)>,
    pub footnotes: Vec<(String, String)>,
    pub media: &'a Vec<(String, String)>,
}

/// The mathematical value of [`Tables`].
#[verifier::ext_equal]
pub ghost struct TablesView {
    pub definitions: Entries,
    pub footnotes: Entries,
    pub media: Entries,
}

impl<'a> View for Tables<'a> {
    type V = TablesView;

    open spec fn view(&self) -> TablesView {
        TablesView {
            definitions: self.definitions.deep_view(),
            footnotes: self.footnotes.deep_view(),
            media: self.media.deep_view(),
        }
    }
}

/// The value that a table holds for a key.
pub fn find<'a>(entries: &'a Vec<(String, String)>, key: &str) -> (value: Option<&'a str>)
    ensures
        match value {
            Some(v) => lookup(entries.deep_view(), key@) == Some(v@),
            None => lookup(entries.deep_view(), key@) is None,
        },
{
    let ghost all = entries.deep_view();
    let mut i: usize = entries.len();
    assert(all.take(all.len() as int) =~= all);
    while i > 0
        invariant
            i <= entries.len(),
            all == entries.deep_view(),
            lookup(all, key@) == lookup(all.take(i as int), key@),
        decreases i,
    {
        i -= 1;
        proof {
            lemma_take_step(all, i as int);
            assert(all[i as int] == (entries@[i as int].0@, entries@[i as int].1@));
        }
        if str_eq(entries[i].0.as_str(), key) {
            return Some(entries[i].1.as_str());
        }
    }
    assert(all.take(0) =~= Seq::<(Seq<char>, Seq<char>)>::empty());
    None
}

/// Enters a value for a key into a table.
pub fn enter(entries: &mut Vec<(String, String)>, key: &str, value: String)
    ensures
        final(entries).deep_view() == old(entries).deep_view().push((key@, value@)),
{
    entries.push((key.to_owned(), value));
    assert(entries.deep_view() =~= old(entries).deep_view().push((key@, value@)));
}

} // verus!
