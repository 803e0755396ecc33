//! Rendering of an HTML node tree as Typst markup.
//!
//! The walker keeps the tags of the enclosing nodes on a stack, which list
//! items read to find their marker and indentation, and appends to one
//! output buffer. An element that it cannot render leaves no text; its tag
//! name is recorded instead, so that the caller sees what was left out.

use vstd::prelude::*;
use crate::dom::{build_tree, html_records, parse_document_records, tree_of, HtmlNode, HtmlTree};
use crate::escape::{escape_html, escaped, escaped_prose, push_escaped, Place};
use crate::text::{lemma_take_step, push_char, repeated, str_eq, strings_view, trim, trimmed};
use std::borrow::Cow;

verus! {

/// What the walker does with an element, by its tag name.
#[derive(Clone, Copy, Debug, PartialEq, Eq, Structural)]
pub enum TagKind {
    /// `div`, `section`, `header`, `footer`
    Division,
    /// `li`
    ListItem,
    /// `ol`
    OrderedList,
    /// `ul`, `menu`
    UnorderedList,
    /// `s`, `del`
    Strike,
    /// `b`, `strong`
    Bold,
    /// `i`, `em`
    Italic,
    /// `u`, `ins`
    Underline,
    /// `blockquote`
    Blockquote,
    /// `h1` to `h6`, with the level
    Heading(u8),
    /// `html`, `head`, `body`
    Transparent,
    /// `p`
    Paragraph,
    /// `br`
    LineBreak,
    /// `a`
    Anchor,
    /// `img`
    Image,
    /// every other tag
    Unsupported,
}

/// The kind of the element with the given tag name.
pub open spec fn tag_kind(name: Seq<char>) -> TagKind {
    if name == "div"@ || name == "section"@ || name == "header"@ || name == "footer"@ {
        TagKind::Division
    } else if name == "li"@ {
        TagKind::ListItem
    } else if name == "ol"@ {
        TagKind::OrderedList
    } else if name == "ul"@ || name == "menu"@ {
        TagKind::UnorderedList
    } else if name == "s"@ || name == "del"@ {
        TagKind::Strike
    } else if name == "b"@ || name == "strong"@ {
        TagKind::Bold
    } else if name == "i"@ || name == "em"@ {
        TagKind::Italic
    } else if name == "u"@ || name == "ins"@ {
        TagKind::Underline
    } else if name == "blockquote"@ {
        TagKind::Blockquote
    } else if name == "h1"@ {
        TagKind::Heading(1)
    } else if name == "h2"@ {
        TagKind::Heading(2)
    } else if name == "h3"@ {
        TagKind::Heading(3)
    } else if name == "h4"@ {
        TagKind::Heading(4)
    } else if name == "h5"@ {
        TagKind::Heading(5)
    } else if name == "h6"@ {
        TagKind::Heading(6)
    } else if name == "html"@ || name == "head"@ || name == "body"@ {
        TagKind::Transparent
    } else if name == "p"@ {
        TagKind::Paragraph
    } else if name == "br"@ {
        TagKind::LineBreak
    } else if name == "a"@ {
        TagKind::Anchor
    } else if name == "img"@ {
        TagKind::Image
    } else {
        TagKind::Unsupported
    }
}

/// Whether a stack entry is the tag of a list.
pub open spec fn is_list_entry(entry: Option<Seq<char>>) -> bool {
    match entry {
        Some(name) => tag_kind(name) == TagKind::OrderedList || tag_kind(name)
            == TagKind::UnorderedList,
        None => false,
    }
}

/// The number of list tags on the stack.
pub open spec fn list_count(stack: Seq<Option<Seq<char>>>) -> nat
    decreases stack.len(),
{
    if stack.len() == 0 {
        0
    } else if is_list_entry(stack.last()) {
        list_count(stack.drop_last()) + 1
    } else {
        list_count(stack.drop_last())
    }
}

/// The innermost list tag on the stack, if there is one.
pub open spec fn nearest_list(stack: Seq<Option<Seq<char>>>) -> Option<Seq<char>>
    decreases stack.len(),
{
    if stack.len() == 0 {
        None
    } else if is_list_entry(stack.last()) {
        stack.last()
    } else {
        nearest_list(stack.drop_last())
    }
}

/// The number of list tags on the stack outside the innermost one.
pub open spec fn outer_lists(stack: Seq<Option<Seq<char>>>) -> nat {
    if list_count(stack) == 0 {
        0
    } else {
        (list_count(stack) - 1) as nat
    }
}

/// Whether the innermost list on the stack is an ordered one.
pub open spec fn in_ordered_list(stack: Seq<Option<Seq<char>>>) -> bool {
    match nearest_list(stack) {
        Some(name) => tag_kind(name) == TagKind::OrderedList,
        None => false,
    }
}

/// What a list item starts with: two spaces for each list outside the
/// innermost one, then `+ ` in an ordered list and `- ` otherwise.
pub open spec fn item_marker(stack: Seq<Option<Seq<char>>>) -> Seq<char> {
    repeated(' ', 2 * outer_lists(stack)) + (if in_ordered_list(stack) {
        "+ "@
    } else {
        "- "@
    })
}

/// The value of the first attribute with the given name, from position
/// `from` on.
pub open spec fn attr_value_from(
    attrs: Seq<(Seq<char>, Seq<char>)>,
    name: Seq<char>,
    from: nat,
) -> Option<Seq<char>>
    decreases attrs.len() - from,
{
    if from >= attrs.len() {
        None
    } else if attrs[from as int].0 == name {
        Some(attrs[from as int].1)
    } else {
        attr_value_from(attrs, name, from + 1)
    }
}

/// The value of the first attribute with the given name.
pub open spec fn attr_value(attrs: Seq<(Seq<char>, Seq<char>)>, name: Seq<char>) -> Option<
    Seq<char>,
> {
    attr_value_from(attrs, name, 0)
}

/// The markup of an image: a captioned figure where source and alternative
/// text are present, a figure without caption where only the source is,
/// and nothing without a source.
pub open spec fn image_text(src: Option<Seq<char>>, alt: Option<Seq<char>>) -> Seq<char> {
    match (src, alt) {
        (Some(src), Some(alt)) => "#figure(caption: ["@ + alt + "], image(alt: \""@ + escaped(
            alt,
            Place::Literal,
        ) + "\", \""@ + escaped(src, Place::Literal) + "\"))"@,
        (Some(src), None) => "#figure(caption: none, image(\""@ + escaped(src, Place::Literal)
            + "\"))"@,
        _ => Seq::empty(),
    }
}

/// What a heading ends with: its anchor where it has an `id`, and a line
/// feed.
pub open spec fn anchor_text(id: Option<Seq<char>>) -> Seq<char> {
    match id {
        Some(id) => " <"@ + id + ">\n"@,
        None => "\n"@,
    }
}

/// The markup of an element of the given kind around the markup `inner` of
/// its children, under the given stack of enclosing tags.
pub open spec fn element_text(
    kind: TagKind,
    attrs: Seq<(Seq<char>, Seq<char>)>,
    inner: Seq<char>,
    stack: Seq<Option<Seq<char>>>,
) -> Seq<char> {
    match kind {
        TagKind::Division => "\n\n"@ + inner + "\n\n"@,
        TagKind::ListItem => item_marker(stack) + inner + "\n"@,
        TagKind::OrderedList | TagKind::UnorderedList => "\n"@ + (if list_count(stack) == 0 {
            "\n"@
        } else {
            Seq::empty()
        }) + inner + "\n\n"@,
        TagKind::Strike => "#strike["@ + inner + "]"@,
        TagKind::Bold => "*"@ + inner + "*"@,
        TagKind::Italic => "_"@ + inner + "_"@,
        TagKind::Underline => "#underline["@ + inner + "]"@,
        TagKind::Blockquote => "\n\n#quote(block: true)[\n"@ + inner + "\n]\n\n"@,
        TagKind::Heading(level) => repeated('=', level as nat) + " "@ + inner + anchor_text(
            attr_value(attrs, "id"@),
        ),
        TagKind::Transparent => inner,
        TagKind::Paragraph => inner + "\n\n"@,
        TagKind::LineBreak => "\\\n"@,
        TagKind::Anchor => match attr_value(attrs, "href"@) {
            Some(href) => "#link(\""@ + escaped(href, Place::Literal) + "\")["@ + inner + "]"@,
            None => inner,
        },
        TagKind::Image => image_text(attr_value(attrs, "src"@), attr_value(attrs, "alt"@)),
        TagKind::Unsupported => Seq::empty(),
    }
}

/// Whether the walker descends into the children of an element of the
/// given kind.
pub open spec fn descends(kind: TagKind) -> bool {
    kind != TagKind::LineBreak && kind != TagKind::Image && kind != TagKind::Unsupported
}

/// The markup of a tree under the given stack of enclosing tags.
pub open spec fn html_text(t: HtmlTree, stack: Seq<Option<Seq<char>>>) -> Seq<char>
    decreases t, 0nat,
{
    match t {
        HtmlTree::Text(s) => escaped_prose(trimmed(s)),
        HtmlTree::Other { children } => html_children_text(
            children,
            children.len(),
            stack.push(None),
        ),
        HtmlTree::Element { name, attrs, children } => element_text(
            tag_kind(name),
            attrs,
            if descends(tag_kind(name)) {
                html_children_text(children, children.len(), stack.push(Some(name)))
            } else {
                Seq::empty()
            },
            stack,
        ),
    }
}

/// The markup of the first `n` of `children`, one after the other.
pub open spec fn html_children_text(
    children: Seq<HtmlTree>,
    n: nat,
    stack: Seq<Option<Seq<char>>>,
) -> Seq<char>
    decreases children, n,
{
    if n == 0 || n > children.len() {
        Seq::empty()
    } else {
        html_children_text(children, (n - 1) as nat, stack) + html_text(children[n - 1], stack)
    }
}

/// The tag names of the elements of a tree that the walker cannot render,
/// in document order.
pub open spec fn html_unsupported(t: HtmlTree) -> Seq<Seq<char>>
    decreases t, 0nat,
{
    match t {
        HtmlTree::Text(_) => Seq::empty(),
        HtmlTree::Other { children } => html_children_unsupported(children, children.len()),
        HtmlTree::Element { name, attrs, children } => if tag_kind(name) == TagKind::Unsupported {
            seq![name]
        } else if descends(tag_kind(name)) {
            html_children_unsupported(children, children.len())
        } else {
            Seq::empty()
        },
    }
}

/// The unsupported tag names among the first `n` of `children`.
pub open spec fn html_children_unsupported(children: Seq<HtmlTree>, n: nat) -> Seq<Seq<char>>
    decreases children, n,
{
    if n == 0 || n > children.len() {
        Seq::empty()
    } else {
        html_children_unsupported(children, (n - 1) as nat) + html_unsupported(children[n - 1])
    }
}

/// A stack entry, its tag as a sequence of characters.
pub open spec fn entry_view(entry: Option<String>) -> Option<Seq<char>> {
    match entry {
        Some(name) => Some(name@),
        None => None,
    }
}

/// The tags of a stack, each as its sequence of characters.
pub open spec fn stack_view(stack: Seq<Option<String>>) -> Seq<Option<Seq<char>>> {
    Seq::new(stack.len(), |i: int| entry_view(stack[i]))
}

/// The state of a walk: the tags of the enclosing nodes, outermost first,
/// the markup written so far, and the tag names of the elements left out.
#[derive(Debug)]
pub struct Context {
    pub tag_stack: Vec<Option<String>>,
    pub output: String,
    pub unsupported: Vec<String>,
}

impl Context {
    /// The stack of enclosing tags.
    pub open spec fn stack(&self) -> Seq<Option<Seq<char>>> {
        stack_view(self.tag_stack@)
    }

    /// The tag names of the elements left out so far.
    pub open spec fn skipped(&self) -> Seq<Seq<char>> {
        strings_view(self.unsupported@)
    }

    /// A context at the start of a walk: nothing on the stack, nothing
    /// written, nothing left out.
    pub fn new() -> (ctx: Context)
        ensures
            ctx.stack() == Seq::<Option<Seq<char>>>::empty(),
            ctx.output@ == Seq::<char>::empty(),
            ctx.skipped() == Seq::<Seq<char>>::empty(),
    {
        let ctx = Context { tag_stack: Vec::new(), output: String::new(), unsupported: Vec::new() };
        assert(ctx.stack() =~= Seq::<Option<Seq<char>>>::empty());
        assert(ctx.skipped() =~= Seq::<Seq<char>>::empty());
        ctx
    }
}

/// The markup of a document and the tag names of the elements that were
/// left out of it.
#[derive(Debug)]
pub struct Rendered {
    pub text: String,
    pub unsupported: Vec<String>,
}

/// The kind of the element with the given tag name.
pub fn classify(name: &str) -> (kind: TagKind)
    ensures
        kind == tag_kind(name@),
{
    if str_eq(name, "div") || str_eq(name, "section") || str_eq(name, "header") || str_eq(
        name,
        "footer",
    ) {
        TagKind::Division
    } else if str_eq(name, "li") {
        TagKind::ListItem
    } else if str_eq(name, "ol") {
        TagKind::OrderedList
    } else if str_eq(name, "ul") || str_eq(name, "menu") {
        TagKind::UnorderedList
    } else if str_eq(name, "s") || str_eq(name, "del") {
        TagKind::Strike
    } else if str_eq(name, "b") || str_eq(name, "strong") {
        TagKind::Bold
    } else if str_eq(name, "i") || str_eq(name, "em") {
        TagKind::Italic
    } else if str_eq(name, "u") || str_eq(name, "ins") {
        TagKind::Underline
    } else if str_eq(name, "blockquote") {
        TagKind::Blockquote
    } else if str_eq(name, "h1") {
        TagKind::Heading(1)
    } else if str_eq(name, "h2") {
        TagKind::Heading(2)
    } else if str_eq(name, "h3") {
        TagKind::Heading(3)
    } else if str_eq(name, "h4") {
        TagKind::Heading(4)
    } else if str_eq(name, "h5") {
        TagKind::Heading(5)
    } else if str_eq(name, "h6") {
        TagKind::Heading(6)
    } else if str_eq(name, "html") || str_eq(name, "head") || str_eq(name, "body") {
        TagKind::Transparent
    } else if str_eq(name, "p") {
        TagKind::Paragraph
    } else if str_eq(name, "br") {
        TagKind::LineBreak
    } else if str_eq(name, "a") {
        TagKind::Anchor
    } else if str_eq(name, "img") {
        TagKind::Image
    } else {
        TagKind::Unsupported
    }
}

/// The value of the first attribute with the given name.
pub fn get_attr_value<'a>(attrs: &'a Vec<(String, String)>, name: &str) -> (value: Option<&'a str>)
    ensures
        match value {
            Some(v) => attr_value(attrs.deep_view(), name@) == Some(v@),
            None => attr_value(attrs.deep_view(), name@) is None,
        },
{
    let mut i: usize = 0;
    while i < attrs.len()
        invariant
            i <= attrs.len(),
            attr_value(attrs.deep_view(), name@) == attr_value_from(
                attrs.deep_view(),
                name@,
                i as nat,
            ),
        decreases attrs.len() - i,
    {
        assert(attrs.deep_view()[i as int] == (attrs@[i as int].0@, attrs@[i as int].1@));
        if str_eq(attrs[i].0.as_str(), name) {
            return Some(attrs[i].1.as_str());
        }
        i += 1;
    }
    None
}

/// Appends the marker of a list item under the given stack to `out`.
pub fn push_item_marker(out: &mut String, stack: &Vec<Option<String>>)
    ensures
        final(out)@ == old(out)@ + item_marker(stack_view(stack@)),
{
    let ghost tags = stack_view(stack@);
    let mut i: usize = stack.len();
    let mut found = false;
    let mut ordered = false;
    let mut outer: usize = 0;
    assert(tags.take(tags.len() as int) =~= tags);
    while i > 0
        invariant
            i <= stack.len(),
            tags == stack_view(stack@),
            outer <= stack.len() - i,
            !found ==> outer == 0 && list_count(tags) == list_count(tags.take(i as int))
                && nearest_list(tags) == nearest_list(tags.take(i as int)),
            found ==> list_count(tags) == list_count(tags.take(i as int)) + outer + 1
                && nearest_list(tags) is Some && ordered == in_ordered_list(tags),
        decreases i,
    {
        i -= 1;
        proof {
            lemma_take_step(tags, i as int);
        }
        let is_list = match &stack[i] {
            Some(name) => {
                let kind = classify(name.as_str());
                if !found && (kind == TagKind::OrderedList || kind == TagKind::UnorderedList) {
                    ordered = kind == TagKind::OrderedList;
                }
                kind == TagKind::OrderedList || kind == TagKind::UnorderedList
            },
            None => false,
        };
        assert(is_list == is_list_entry(tags[i as int]));
        if is_list {
            if found {
                outer += 1;
            } else {
                found = true;
            }
        }
    }
    proof {
        assert(tags.take(0) =~= Seq::<Option<Seq<char>>>::empty());
        assert(outer == outer_lists(tags));
    }
    let mut j: usize = 0;
    assert(out@ =~= old(out)@ + repeated(' ', 0));
    while j < outer
        invariant
            j <= outer,
            out@ == old(out)@ + repeated(' ', 2 * (j as nat)),
        decreases outer - j,
    {
        push_char(out, ' ');
        push_char(out, ' ');
        j += 1;
        assert(out@ =~= old(out)@ + repeated(' ', 2 * (j as nat)));
    }
    if found && ordered {
        out.append("+ ");
    } else {
        out.append("- ");
    }
    assert(out@ =~= old(out)@ + item_marker(tags));
}

/// Whether the stack holds a list tag.
pub fn inside_list(stack: &Vec<Option<String>>) -> (yes: bool)
    ensures
        yes == (list_count(stack_view(stack@)) > 0),
{
    let ghost tags = stack_view(stack@);
    let mut i: usize = 0;
    assert(tags.take(0) =~= Seq::<Option<Seq<char>>>::empty());
    while i < stack.len()
        invariant
            i <= stack.len(),
            tags == stack_view(stack@),
            list_count(tags.take(i as int)) == 0,
        decreases stack.len() - i,
    {
        proof {
            lemma_take_step(tags, i as int);
            lemma_list_count_grows(tags, i as int + 1);
        }
        let is_list = match &stack[i] {
            Some(name) => {
                let kind = classify(name.as_str());
                kind == TagKind::OrderedList || kind == TagKind::UnorderedList
            },
            None => false,
        };
        assert(is_list == is_list_entry(tags[i as int]));
        if is_list {
            return true;
        }
        i += 1;
    }
    proof {
        assert(tags.take(tags.len() as int) =~= tags);
    }
    false
}

/// A longer part of a stack holds at least as many list tags.
pub proof fn lemma_list_count_grows(stack: Seq<Option<Seq<char>>>, n: int)
    requires
        0 <= n <= stack.len(),
    ensures
        list_count(stack.take(n)) <= list_count(stack),
    decreases stack.len(),
{
    if n < stack.len() {
        assert(stack.drop_last().take(n) =~= stack.take(n));
        lemma_list_count_grows(stack.drop_last(), n);
    } else {
        assert(stack.take(n) =~= stack);
    }
}

/// Stack entries that are no list tags change neither the number of list
/// tags nor the innermost one.
pub proof fn lemma_lists_under(base: Seq<Option<Seq<char>>>, inner: Seq<Option<Seq<char>>>)
    requires
        forall|i: int| 0 <= i < inner.len() ==> !is_list_entry(inner[i]),
    ensures
        list_count(base + inner) == list_count(base),
        nearest_list(base + inner) == nearest_list(base),
    decreases inner.len(),
{
    if inner.len() == 0 {
        assert(base + inner =~= base);
    } else {
        assert((base + inner).drop_last() =~= base + inner.drop_last());
        assert((base + inner).last() == inner[inner.len() - 1]);
        lemma_lists_under(base, inner.drop_last());
    }
}

/// A list item's marker goes by the innermost enclosing list alone, and
/// its indentation by the lists outside that one. Under a stack that holds
/// `outer`, then the tag `list` of a list, then entries that are no list
/// tags, a list item starts with two spaces for each list tag in `outer`,
/// whatever those lists are, followed by `+ ` where `list` is an ordered
/// list and by `- ` otherwise; its children and a line feed follow.
pub proof fn lemma_item_marker(
    outer: Seq<Option<Seq<char>>>,
    list: Seq<char>,
    inner: Seq<Option<Seq<char>>>,
    item: HtmlTree,
)
    requires
        is_list_entry(Some(list)),
        forall|i: int| 0 <= i < inner.len() ==> !is_list_entry(inner[i]),
        item is Element,
        tag_kind(item->name) == TagKind::ListItem,
    ensures
        item_marker(outer.push(Some(list)) + inner) == repeated(' ', 2 * list_count(outer)) + (
        if tag_kind(list) == TagKind::OrderedList {
            "+ "@
        } else {
            "- "@
        }),
        html_text(item, outer.push(Some(list)) + inner) == item_marker(
            outer.push(Some(list)) + inner,
        ) + inner_text(item, outer.push(Some(list)) + inner) + "\n"@,
{
    let base = outer.push(Some(list));
    lemma_lists_under(base, inner);
    assert(base.drop_last() =~= outer);
    assert(base.last() == Some(list));
    assert(list_count(base) == list_count(outer) + 1);
    assert(nearest_list(base) == Some(list));
}

/// Appends the markup of an image to `out`.
pub fn push_image(out: &mut String, src: Option<&str>, alt: Option<&str>)
    ensures
        final(out)@ == old(out)@ + image_text(
            match src {
                Some(s) => Some(s@),
                None => None,
            },
            match alt {
                Some(a) => Some(a@),
                None => None,
            },
        ),
{
    match (src, alt) {
        (Some(src), Some(alt)) => {
            out.append("#figure(caption: [");
            out.append(alt);
            out.append("], image(alt: \"");
            push_escaped(out, alt, Place::Literal);
            out.append("\", \"");
            push_escaped(out, src, Place::Literal);
            out.append("\"))");
            assert(out@ =~= old(out)@ + image_text(Some(src@), Some(alt@)));
        },
        (Some(src), None) => {
            out.append("#figure(caption: none, image(\"");
            push_escaped(out, src, Place::Literal);
            out.append("\"))");
            assert(out@ =~= old(out)@ + image_text(Some(src@), None));
        },
        _ => {
            assert(out@ =~= old(out)@ + Seq::<char>::empty());
        },
    }
}

/// Walks a node: appends its markup to the output and the tag names of the
/// elements that cannot be rendered to the list of those left out. The
/// stack is the same after the walk as before.
pub fn walk(node: &HtmlNode, ctx: &mut Context)
    ensures
        final(ctx).stack() == old(ctx).stack(),
        final(ctx).output@ == old(ctx).output@ + html_text(node@, old(ctx).stack()),
        final(ctx).skipped() == old(ctx).skipped() + html_unsupported(node@),
    decreases node, 2nat,
{
    match node {
        HtmlNode::Text(contents) => {
            let escaped_text = escape_html(trim(contents.as_str()));
            match &escaped_text {
                Cow::Borrowed(text) => ctx.output.append(text),
                Cow::Owned(text) => ctx.output.append(text.as_str()),
            }
            assert(ctx.skipped() =~= old(ctx).skipped() + html_unsupported(node@));
        },
        HtmlNode::Other { .. } => {
            walk_descendants(node, ctx, None);
        },
        HtmlNode::Element { name, attrs, .. } => {
            let kind = classify(name.as_str());
            match kind {
                TagKind::Unsupported => {
                    let ghost skipped = ctx.skipped();
                    ctx.unsupported.push(name.clone());
                    assert(ctx.skipped() =~= skipped + seq![name@]);
                    assert(ctx.output@ =~= old(ctx).output@ + Seq::<char>::empty());
                },
                TagKind::Division => walk_between(node, ctx, "\n\n", "\n\n"),
                TagKind::Strike => walk_between(node, ctx, "#strike[", "]"),
                TagKind::Bold => walk_between(node, ctx, "*", "*"),
                TagKind::Italic => walk_between(node, ctx, "_", "_"),
                TagKind::Underline => walk_between(node, ctx, "#underline[", "]"),
                TagKind::Blockquote => walk_between(
                    node,
                    ctx,
                    "\n\n#quote(block: true)[\n",
                    "\n]\n\n",
                ),
                TagKind::ListItem => walk_list_item(node, ctx),
                TagKind::OrderedList | TagKind::UnorderedList => walk_list(node, ctx),
                TagKind::Heading(level) => walk_heading(node, ctx, level),
                TagKind::Transparent => {
                    walk_descendants(node, ctx, Some(name.clone()));
                },
                TagKind::Paragraph => {
                    let ghost before = ctx.output@;
                    walk_descendants(node, ctx, Some(name.clone()));
                    let ghost body = ctx.output@;
                    ctx.output.append("\n\n");
                    assert(ctx.output@ =~= before + (body.skip(before.len() as int) + "\n\n"@));
                    assert(body.skip(before.len() as int) =~= html_children_text(
                        node@->Element_children,
                        node@->Element_children.len(),
                        old(ctx).stack().push(Some(name@)),
                    ));
                },
                TagKind::LineBreak => {
                    ctx.output.append("\\\n");
                    assert(ctx.skipped() =~= old(ctx).skipped() + html_unsupported(node@));
                },
                TagKind::Anchor => walk_anchor(node, ctx),
                TagKind::Image => {
                    let src = get_attr_value(attrs, "src");
                    let alt = get_attr_value(attrs, "alt");
                    push_image(&mut ctx.output, src, alt);
                    assert(ctx.skipped() =~= old(ctx).skipped() + html_unsupported(node@));
                },
            }
        },
    }
}

/// The tag name of an element, for the stack.
fn tag_of(node: &HtmlNode) -> (tag: Option<String>)
    ensures
        entry_view(tag) == tag_entry(node@),
{
    match node {
        HtmlNode::Element { name, .. } => Some(name.clone()),
        _ => None,
    }
}

/// The stack entry under which the children of a tree are walked: the tag
/// name of an element, and nothing for another node.
pub open spec fn tag_entry(t: HtmlTree) -> Option<Seq<char>> {
    match t {
        HtmlTree::Element { name, .. } => Some(name),
        _ => None,
    }
}

/// The markup of the children of a tree, walked under its own tag.
pub open spec fn inner_text(t: HtmlTree, stack: Seq<Option<Seq<char>>>) -> Seq<char> {
    html_children_text(
        crate::dom::children_of(t),
        crate::dom::children_of(t).len(),
        stack.push(tag_entry(t)),
    )
}

/// The unsupported tag names among the children of a tree.
pub open spec fn inner_unsupported(t: HtmlTree) -> Seq<Seq<char>> {
    html_children_unsupported(crate::dom::children_of(t), crate::dom::children_of(t).len())
}

/// Walks the children of an element between an opening and a closing text.
fn walk_between(node: &HtmlNode, ctx: &mut Context, open: &str, close: &str)
    requires
        node is Element,
    ensures
        final(ctx).stack() == old(ctx).stack(),
        final(ctx).output@ == old(ctx).output@ + (open@ + inner_text(node@, old(ctx).stack())
            + close@),
        final(ctx).skipped() == old(ctx).skipped() + inner_unsupported(node@),
    decreases node, 1nat,
{
    let ghost before = ctx.output@;
    let ghost inner = inner_text(node@, ctx.stack());
    ctx.output.append(open);
    walk_descendants(node, ctx, tag_of(node));
    ctx.output.append(close);
    assert(ctx.output@ =~= before + (open@ + inner + close@));
}

/// Walks a list item: its marker, its children, a line feed.
fn walk_list_item(node: &HtmlNode, ctx: &mut Context)
    requires
        node is Element,
    ensures
        final(ctx).stack() == old(ctx).stack(),
        final(ctx).output@ == old(ctx).output@ + (item_marker(old(ctx).stack()) + inner_text(
            node@,
            old(ctx).stack(),
        ) + "\n"@),
        final(ctx).skipped() == old(ctx).skipped() + inner_unsupported(node@),
    decreases node, 1nat,
{
    let ghost before = ctx.output@;
    let ghost stack = ctx.stack();
    let ghost inner = inner_text(node@, stack);
    push_item_marker(&mut ctx.output, &ctx.tag_stack);
    walk_descendants(node, ctx, tag_of(node));
    ctx.output.append("\n");
    assert(ctx.output@ =~= before + (item_marker(stack) + inner + "\n"@));
}

/// What a list starts with: a line feed, and one more where no list
/// encloses it.
pub open spec fn list_lead(stack: Seq<Option<Seq<char>>>) -> Seq<char> {
    "\n"@ + (if list_count(stack) == 0 {
        "\n"@
    } else {
        Seq::empty()
    })
}

/// Walks a list: its lead, its children, two line feeds.
fn walk_list(node: &HtmlNode, ctx: &mut Context)
    requires
        node is Element,
    ensures
        final(ctx).stack() == old(ctx).stack(),
        final(ctx).output@ == old(ctx).output@ + (list_lead(old(ctx).stack()) + inner_text(
            node@,
            old(ctx).stack(),
        ) + "\n\n"@),
        final(ctx).skipped() == old(ctx).skipped() + inner_unsupported(node@),
    decreases node, 1nat,
{
    let ghost before = ctx.output@;
    let ghost stack = ctx.stack();
    let ghost inner = inner_text(node@, stack);
    ctx.output.append("\n");
    if !inside_list(&ctx.tag_stack) {
        ctx.output.append("\n");
    }
    assert(ctx.output@ =~= before + list_lead(stack));
    walk_descendants(node, ctx, tag_of(node));
    ctx.output.append("\n\n");
    assert(ctx.output@ =~= before + (list_lead(stack) + inner + "\n\n"@));
}

/// The attributes of a tree; only an element has any.
pub open spec fn attrs_of(t: HtmlTree) -> Seq<(Seq<char>, Seq<char>)> {
    match t {
        HtmlTree::Element { attrs, .. } => attrs,
        _ => Seq::empty(),
    }
}

/// Walks a heading: as many `=` as its level, a space, its children, its
/// anchor where it has an `id`, and a line feed.
fn walk_heading(node: &HtmlNode, ctx: &mut Context, level: u8)
    requires
        node is Element,
    ensures
        final(ctx).stack() == old(ctx).stack(),
        final(ctx).output@ == old(ctx).output@ + (repeated('=', level as nat) + " "@ + inner_text(
            node@,
            old(ctx).stack(),
        ) + anchor_text(attr_value(attrs_of(node@), "id"@))),
        final(ctx).skipped() == old(ctx).skipped() + inner_unsupported(node@),
    decreases node, 1nat,
{
    let ghost before = ctx.output@;
    let ghost inner = inner_text(node@, ctx.stack());
    crate::text::push_repeated(&mut ctx.output, '=', level as usize);
    ctx.output.append(" ");
    walk_descendants(node, ctx, tag_of(node));
    let ghost body = ctx.output@;
    assert(body =~= before + (repeated('=', level as nat) + " "@ + inner));
    if let HtmlNode::Element { attrs, .. } = node {
        match get_attr_value(attrs, "id") {
            Some(id) => {
                ctx.output.append(" <");
                ctx.output.append(id);
                ctx.output.append(">\n");
                assert(ctx.output@ =~= body + anchor_text(Some(id@)));
            },
            None => {
                ctx.output.append("\n");
            },
        }
    }
    assert(ctx.output@ =~= before + (repeated('=', level as nat) + " "@ + inner + anchor_text(
        attr_value(attrs_of(node@), "id"@),
    )));
}

/// The markup of a link around the markup `inner` of its children: a link
/// call where there is a target, the children alone otherwise.
pub open spec fn link_text(href: Option<Seq<char>>, inner: Seq<char>) -> Seq<char> {
    match href {
        Some(href) => "#link(\""@ + escaped(href, Place::Literal) + "\")["@ + inner + "]"@,
        None => inner,
    }
}

/// Walks a link.
fn walk_anchor(node: &HtmlNode, ctx: &mut Context)
    requires
        node is Element,
    ensures
        final(ctx).stack() == old(ctx).stack(),
        final(ctx).output@ == old(ctx).output@ + link_text(
            attr_value(attrs_of(node@), "href"@),
            inner_text(node@, old(ctx).stack()),
        ),
        final(ctx).skipped() == old(ctx).skipped() + inner_unsupported(node@),
    decreases node, 1nat,
{
    let ghost before = ctx.output@;
    let ghost inner = inner_text(node@, ctx.stack());
    if let HtmlNode::Element { attrs, .. } = node {
        match get_attr_value(attrs, "href") {
            Some(href) => {
                ctx.output.append("#link(\"");
                push_escaped(&mut ctx.output, href, Place::Literal);
                ctx.output.append("\")[");
                walk_descendants(node, ctx, tag_of(node));
                ctx.output.append("]");
                assert(ctx.output@ =~= before + link_text(Some(href@), inner));
            },
            None => {
                walk_descendants(node, ctx, tag_of(node));
            },
        }
    }
}

/// Walks the children of a node under one more stack entry: pushes the
/// entry, walks each child in document order, and pops the entry again.
pub fn walk_descendants(node: &HtmlNode, ctx: &mut Context, tag_name: Option<String>)
    ensures
        final(ctx).stack() == old(ctx).stack(),
        final(ctx).output@ == old(ctx).output@ + html_children_text(
            crate::dom::children_of(node@),
            crate::dom::children_of(node@).len(),
            old(ctx).stack().push(entry_view(tag_name)),
        ),
        final(ctx).skipped() == old(ctx).skipped() + inner_unsupported(node@),
    decreases node, 0nat,
{
    let ghost entry = entry_view(tag_name);
    let ghost outer = ctx.stack();
    let ghost inner = outer.push(entry);
    let ghost kids = crate::dom::children_of(node@);
    ctx.tag_stack.push(tag_name);
    assert(ctx.stack() =~= inner);
    match node {
        HtmlNode::Text(_) => {
            assert(ctx.output@ =~= old(ctx).output@ + html_children_text(kids, 0, inner));
            assert(ctx.skipped() =~= old(ctx).skipped() + html_children_unsupported(kids, 0));
        },
        HtmlNode::Element { children, .. } | HtmlNode::Other { children } => {
            let mut i: usize = 0;
            assert(ctx.output@ =~= old(ctx).output@ + html_children_text(kids, 0, inner));
            assert(ctx.skipped() =~= old(ctx).skipped() + html_children_unsupported(kids, 0));
            while i < children.len()
                invariant
                    i <= children.len(),
                    decreases_to!(node => children),
                    kids.len() == children.len(),
                    forall|j: int| 0 <= j < children.len() ==> kids[j] == children@[j]@,
                    ctx.stack() == inner,
                    ctx.output@ == old(ctx).output@ + html_children_text(kids, i as nat, inner),
                    ctx.skipped() == old(ctx).skipped() + html_children_unsupported(
                        kids,
                        i as nat,
                    ),
                decreases children.len() - i,
            {
                walk(&children[i], ctx);
                i += 1;
                proof {
                    assert(ctx.output@ =~= old(ctx).output@ + html_children_text(
                        kids,
                        i as nat,
                        inner,
                    ));
                    assert(ctx.skipped() =~= old(ctx).skipped() + html_children_unsupported(
                        kids,
                        i as nat,
                    ));
                }
            }
        },
    }
    let ghost full = ctx.tag_stack@;
    assert(stack_view(full) == inner);
    assert(full.len() == inner.len());
    ctx.tag_stack.pop();
    assert(ctx.tag_stack@ == full.drop_last());
    assert(ctx.stack() =~= inner.drop_last());
    assert(inner.drop_last() =~= outer);
}

/// The text without the white space at its start and end.
pub fn cleanup(output: &str) -> (out: String)
    ensures
        out@ == trimmed(output@),
{
    trim(output).to_owned()
}

/// Renders a document: the markup of its tree, trimmed, and the tag names
/// of the elements that could not be rendered.
pub fn render_html(root: &HtmlNode) -> (rendered: Rendered)
    ensures
        rendered.text@ == trimmed(html_text(root@, Seq::empty())),
        strings_view(rendered.unsupported@) == html_unsupported(root@),
{
    let mut ctx = Context::new();
    walk(root, &mut ctx);
    assert(ctx.output@ =~= html_text(root@, Seq::empty()));
    assert(ctx.skipped() =~= html_unsupported(root@));
    Rendered { text: cleanup(ctx.output.as_str()), unsupported: ctx.unsupported }
}

/// Whether the parser takes a text: whether its UTF-8 form has no more
/// bytes than the parser's buffers can count.
pub open spec fn parser_takes(html: Seq<char>) -> bool {
    vstd::utf8::encode_utf8(html).len() <= u32::MAX
}

/// Whether the parser takes a text.
pub fn fits_parser(html: &str) -> (yes: bool)
    ensures
        yes == parser_takes(html@),
{
    html.as_bytes().len() <= 0xFFFF_FFFF
}

/// Parses HTML text and renders it, with the tag names of the elements
/// that could not be rendered. The text has to be one that the parser
/// takes; `try_convert_html` tests that first.
pub fn convert_html(html: &str) -> (rendered: Rendered)
    requires
        parser_takes(html@),
    ensures
        rendered.text@ == trimmed(html_text(tree_of(html_records(html@)), Seq::empty())),
        strings_view(rendered.unsupported@) == html_unsupported(tree_of(html_records(html@))),
{
    let root = build_tree(parse_document_records(html));
    render_html(&root)
}

/// Parses HTML text and renders it as Typst markup. Elements that cannot
/// be rendered are left out; `convert_html` names them. The text has to be
/// one that the parser takes; `try_parse_html` tests that first.
pub fn parse_html(html: &str) -> (typst: String)
    requires
        parser_takes(html@),
    ensures
        typst@ == trimmed(html_text(tree_of(html_records(html@)), Seq::empty())),
{
    convert_html(html).text
}

/// Parses HTML text and renders it, where the parser takes the text, and
/// returns `None` where it does not.
pub fn try_convert_html(html: &str) -> (rendered: Option<Rendered>)
    ensures
        rendered is Some <==> parser_takes(html@),
        match rendered {
            Some(rendered) => rendered.text@ == trimmed(
                html_text(tree_of(html_records(html@)), Seq::empty()),
            ) && strings_view(rendered.unsupported@) == html_unsupported(
                tree_of(html_records(html@)),
            ),
            None => true,
        },
{
    if fits_parser(html) {
        Some(convert_html(html))
    } else {
        None
    }
}

/// Parses HTML text and renders it as Typst markup, where the parser takes
/// the text, and returns `None` where it does not.
pub fn try_parse_html(html: &str) -> (typst: Option<String>)
    ensures
        typst is Some <==> parser_takes(html@),
        match typst {
            Some(typst) => typst@ == trimmed(
                html_text(tree_of(html_records(html@)), Seq::empty()),
            ),
            None => true,
        },
{
    if fits_parser(html) {
        Some(parse_html(html))
    } else {
        None
    }
}

} // verus!
