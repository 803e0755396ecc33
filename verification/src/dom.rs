//! The HTML node tree that the renderer walks, and how it is obtained from
//! HTML text.

use html5ever::tendril::TendrilSink;
use html5ever::{parse_document, ParseOpts};
use markup5ever_rcdom::NodeData::{Element, Text};
use markup5ever_rcdom::RcDom;
use vstd::prelude::*;

verus! {

/// A node of an HTML document.
#[derive(Debug, PartialEq, Eq)]
pub enum HtmlNode {
    /// Character data.
    Text(String),
    /// An element with its tag name, its attributes as pairs of name and
    /// value, and its children in document order.
    Element { name: String, attrs: Vec<(String, String)>, children: Vec<HtmlNode> },
    /// Any other node (the document itself, a doctype, a comment, a
    /// processing instruction): it stands only for its children.
    Other { children: Vec<HtmlNode> },
}

/// The mathematical value of an [`HtmlNode`].
pub ghost enum HtmlTree {
    Text(Seq<char>),
    Element { name: Seq<char>, attrs: Seq<(Seq<char>, Seq<char>)>, children: Seq<HtmlTree> },
    Other { children: Seq<HtmlTree> },
}

impl View for HtmlNode {
    type V = HtmlTree;

    open spec fn view(&self) -> HtmlTree
        decreases self,
    {
        match self {
            HtmlNode::Text(s) => HtmlTree::Text(s@),
            HtmlNode::Element { name, attrs, children } => HtmlTree::Element {
                name: name@,
                attrs: attrs.deep_view(),
                children: Seq::new(
                    children@.len(),
                    |i: int|
                        if 0 <= i < children@.len() {
                            children@[i].view()
                        } else {
                            HtmlTree::Text(Seq::empty())
                        },
                ),
            },
            HtmlNode::Other { children } => HtmlTree::Other {
                children: Seq::new(
                    children@.len(),
                    |i: int|
                        if 0 <= i < children@.len() {
                            children@[i].view()
                        } else {
                            HtmlTree::Text(Seq::empty())
                        },
                ),
            },
        }
    }
}

/// The values of a sequence of nodes.
pub open spec fn nodes_view(nodes: Seq<HtmlNode>) -> Seq<HtmlTree> {
    Seq::new(nodes.len(), |i: int| nodes[i]@)
}

/// The children of a tree; a text has none.
pub open spec fn children_of(t: HtmlTree) -> Seq<HtmlTree> {
    match t {
        HtmlTree::Text(_) => Seq::empty(),
        HtmlTree::Element { children, .. } => children,
        HtmlTree::Other { children } => children,
    }
}

/// What a node of a parsed document holds, without its children.
#[derive(Debug, PartialEq, Eq)]
pub enum DomData {
    Text(String),
    Element(String, Vec<(String, String)>),
    Other,
}

/// The mathematical value of a [`DomData`].
pub ghost enum DomItem {
    Text(Seq<char>),
    Element(Seq<char>, Seq<(Seq<char>, Seq<char>)>),
    Other,
}

impl View for DomData {
    type V = DomItem;

    open spec fn view(&self) -> DomItem {
        match self {
            DomData::Text(s) => DomItem::Text(s@),
            DomData::Element(name, attrs) => DomItem::Element(name@, attrs.deep_view()),
            DomData::Other => DomItem::Other,
        }
    }
}

/// The values of a list of records: what each node holds, and the number
/// of its children.
pub open spec fn records_view(records: Seq<(DomData, usize)>) -> Seq<(DomItem, nat)> {
    Seq::new(records.len(), |i: int| (records[i].0@, records[i].1 as nat))
}

/// The nodes of the document that the HTML parser builds from `html`, each
/// with the number of its children. A node stands before its descendants,
/// and the last child of a node, with its descendants, before the others.
pub uninterp spec fn html_records(html: Seq<char>) -> Seq<(DomItem, nat)>;

/// The tree with the given content and children.
pub open spec fn tree_with(item: DomItem, children: Seq<HtmlTree>) -> HtmlTree {
    match item {
        DomItem::Text(s) => HtmlTree::Text(s),
        DomItem::Element(name, attrs) => HtmlTree::Element { name, attrs, children },
        DomItem::Other => HtmlTree::Other { children },
    }
}

/// The trees that the records from position `from` on describe, the first
/// of them last. A record's children are the trees that stand last when
/// its turn comes; where it announces more children than there are trees,
/// it gets them all.
pub open spec fn forest(records: Seq<(DomItem, nat)>, from: nat) -> Seq<HtmlTree>
    decreases records.len() - from,
{
    if from >= records.len() {
        Seq::empty()
    } else {
        let below = forest(records, from + 1);
        let wanted = records[from as int].1;
        let count = if wanted <= below.len() {
            wanted
        } else {
            below.len()
        };
        let children = below.skip(below.len() - count);
        below.take(below.len() - count).push(tree_with(records[from as int].0, children))
    }
}

/// The tree that a list of records describes: the one its first record
/// starts. An empty list gives a node without children.
pub open spec fn tree_of(records: Seq<(DomItem, nat)>) -> HtmlTree {
    let trees = forest(records, 0);
    if trees.len() == 0 {
        HtmlTree::Other { children: Seq::empty() }
    } else {
        trees.last()
    }
}

/// Parses an HTML document with `html5ever::parse_document` into the
/// reference-counted DOM of `markup5ever_rcdom`, and lists its nodes, each
/// with its text or its tag name and attributes, and with the number of its
/// children. The nodes come off a stack that starts with the document and
/// takes the children of each node that leaves it, so a node stands before
/// its descendants and its last child before the others. The document is
/// held until the list is complete, because a node that is dropped empties
/// its descendants. The text goes to the parser in one piece, which must
/// not hold more than `u32::MAX` bytes. What the parser builds is not
/// described here: it goes by the name `html_records`.
#[verifier::external_body]
pub(crate) fn parse_document_records(html: &str) -> (records: Vec<(DomData, usize)>)
    requires
        vstd::utf8::encode_utf8(html@).len() <= u32::MAX,
    ensures
        records_view(records@) == html_records(html@),
{
    let dom = parse_document(RcDom::default(), ParseOpts::default()).one(html);
    let mut pending = vec![dom.document.clone()];
    let mut records = vec![];
    while let Some(node) = pending.pop() {
        pending.extend(node.children.borrow().clone());
        records.push((match &node.data {
            Text { contents } => DomData::Text(contents.borrow().to_string()),
            Element { name, attrs, .. } => DomData::Element(name.local.to_string(),
                attrs.borrow().iter().map(|a| (a.name.local.to_string(), a.value.to_string())).collect()),
            _ => DomData::Other,
        }, node.children.borrow().len()));
    }
    records
}

/// Builds the tree that a list of records describes.
pub fn build_tree(records: Vec<(DomData, usize)>) -> (root: HtmlNode)
    ensures
        root@ == tree_of(records_view(records@)),
{
    let ghost all = records_view(records@);
    let mut records = records;
    let mut trees: Vec<HtmlNode> = Vec::new();
    assert(nodes_view(trees@) =~= forest(all, records.len() as nat));
    while records.len() > 0
        invariant
            records.len() <= all.len(),
            records_view(records@) == all.take(records.len() as int),
            nodes_view(trees@) == forest(all, records.len() as nat),
        decreases records.len(),
    {
        let ghost from = (records.len() - 1) as nat;
        let ghost below = nodes_view(trees@);
        let ghost before = records_view(records@);
        let (data, wanted) = records.pop().unwrap();
        proof {
            assert(records_view(records@) =~= all.take(records.len() as int));
            assert(before[from as int] == all[from as int]);
            assert(data@ == all[from as int].0);
            assert(wanted as nat == all[from as int].1);
        }
        let count = if wanted <= trees.len() {
            wanted
        } else {
            trees.len()
        };
        let children = trees.split_off(trees.len() - count);
        let ghost kids = nodes_view(children@);
        let ghost rest = nodes_view(trees@);
        proof {
            assert(kids =~= below.skip(below.len() - count));
            assert(rest =~= below.take(below.len() - count));
        }
        let node = match data {
            DomData::Text(s) => HtmlNode::Text(s),
            DomData::Element(name, attrs) => HtmlNode::Element { name, attrs, children },
            DomData::Other => HtmlNode::Other { children },
        };
        proof {
            match node@ {
                HtmlTree::Text(_) => {},
                HtmlTree::Element { children: c, .. } => {
                    assert(c =~= kids);
                },
                HtmlTree::Other { children: c } => {
                    assert(c =~= kids);
                },
            }
            assert(node@ == tree_with(all[from as int].0, kids));
        }
        trees.push(node);
        proof {
            assert(nodes_view(trees@) =~= rest.push(node@));
        }
    }
    if trees.len() == 0 {
        let root = HtmlNode::Other { children: Vec::new() };
        proof {
            assert(root@->Other_children =~= Seq::<HtmlTree>::empty());
        }
        root
    } else {
        let ghost all_trees = nodes_view(trees@);
        let root = trees.pop().unwrap();
        proof {
            assert(root@ == all_trees.last());
        }
        root
    }
}

} // verus!
