//! Inline text as nodes of the document tree.

use crate::ast::{
    extend_nodes, leaf, lemma_trees, push_node, single, trees, AstNode, NodeCode, NodeLink,
    NodeValue, NodeValueView, Tree,
};
use crate::rich_text::{
    span_core, span_leading, span_trailing, split_span, Annotations, Mention, RichText,
};
use vstd::prelude::*;
use vstd::string::*;

verus! {

/// Text that is to stand as it is. A table cell takes no raw node, so
/// there the text is a text node.
pub open spec fn verbatim(text: Seq<char>, cell: bool) -> Tree {
    if cell {
        leaf(NodeValueView::Text(text))
    } else {
        leaf(NodeValueView::Raw(text))
    }
}

/// The innermost node of a span. With `code` set it is the whole content as
/// a code span, or a bare pair of backticks where there is no content; else
/// it is the core of the content, to stand as it is.
pub open spec fn base_tree(content: Seq<char>, a: Annotations, cell: bool) -> Tree {
    if a.code {
        if content.len() == 0 {
            verbatim("``"@, cell)
        } else {
            leaf(NodeValueView::Code { num_backticks: 1, literal: content })
        }
    } else {
        verbatim(span_core(content), cell)
    }
}

/// One style around `inner`. Where the style is off, `inner` stays. Where
/// there is something to wrap (the span has content, or an inner style has
/// left its mark), a node of the style goes around `inner`; else the bare
/// pair of delimiters stands as text.
pub open spec fn layer(
    on: bool,
    inner: Tree,
    marked: bool,
    empty: bool,
    value: NodeValueView,
    bare: Seq<char>,
) -> Tree {
    if !on {
        inner
    } else if marked || !empty {
        Tree { value, children: seq![inner] }
    } else {
        leaf(NodeValueView::Text(bare))
    }
}

/// The span under its styles: bold innermost, then italic, then
/// strikethrough. A code span takes no style: it is the innermost node
/// alone.
pub open spec fn styled_tree(content: Seq<char>, a: Annotations, cell: bool) -> Tree {
    if a.code {
        base_tree(content, a, cell)
    } else {
        layered_tree(content, a, cell)
    }
}

/// The core of a span that is no code span, under its styles.
pub open spec fn layered_tree(content: Seq<char>, a: Annotations, cell: bool) -> Tree {
    let empty = content.len() == 0;
    let bold = layer(
        a.bold,
        base_tree(content, a, cell),
        false,
        empty,
        NodeValueView::Strong,
        "****"@,
    );
    let bold_marked = a.bold && empty;
    let italic = layer(a.italic, bold, bold_marked, empty, NodeValueView::Emph, "**"@);
    let italic_marked = bold_marked || (a.italic && empty);
    layer(a.strikethrough, italic, italic_marked, empty, NodeValueView::Strikethrough, "~~~~"@)
}

/// `node`, between the tags of underlining where that is set. A code span
/// is not underlined.
pub open spec fn underlined(node: Tree, a: Annotations) -> Seq<Tree> {
    if a.underline && !a.code {
        seq![
            leaf(NodeValueView::HtmlInline("<u>"@)),
            node,
            leaf(NodeValueView::HtmlInline("</u>"@)),
        ]
    } else {
        seq![node]
    }
}

/// `s` as a text node, if there is any of it.
pub open spec fn text_if_any(s: Seq<char>) -> Seq<Tree> {
    if s.len() > 0 {
        seq![leaf(NodeValueView::Text(s))]
    } else {
        Seq::empty()
    }
}

/// The nodes of a span before any link goes around them: the styled core
/// with the whitespace of the content around it. A code span holds its
/// whitespace itself.
pub open spec fn span_body_trees(content: Seq<char>, a: Annotations, cell: bool) -> Seq<Tree> {
    if a.code {
        underlined(styled_tree(content, a, cell), a)
    } else {
        text_if_any(span_leading(content)) + underlined(styled_tree(content, a, cell), a)
            + text_if_any(span_trailing(content))
    }
}

/// The nodes of a span with the given content, link target and styles, in
/// a table cell or elsewhere.
pub open spec fn span_trees(content: Seq<char>, href: Option<String>, a: Annotations, cell: bool) -> Seq<
    Tree,
> {
    match href {
        Some(url) => seq![
            Tree {
                value: NodeValueView::Link { url: url@, title: Seq::empty() },
                children: span_body_trees(content, a, cell),
            },
        ],
        None => span_body_trees(content, a, cell),
    }
}

/// The nodes of span `i` of a run. The first span may get a prefix in front
/// of its content.
pub open spec fn span_trees_at(
    spans: Seq<RichText>,
    prefix: Option<Seq<char>>,
    cell: bool,
    i: int,
) -> Seq<Tree> {
    let span = spans[i];
    if i == 0 && prefix is Some {
        span_trees(prefix->0 + span.content(), span.href(), span.annotations(), cell)
    } else {
        span_trees(span.content(), span.href(), span.annotations(), cell)
    }
}

/// The nodes of the first `n` spans of a run, one span after the other.
pub open spec fn spans_trees(
    spans: Seq<RichText>,
    prefix: Option<Seq<char>>,
    cell: bool,
    n: nat,
) -> Seq<Tree>
    decreases n,
{
    if n == 0 || n > spans.len() {
        Seq::empty()
    } else {
        spans_trees(spans, prefix, cell, (n - 1) as nat) + span_trees_at(spans, prefix, cell, n - 1)
    }
}

/// The nodes of a run of spans.
pub open spec fn inline_trees(spans: Seq<RichText>) -> Seq<Tree> {
    spans_trees(spans, None, false, spans.len())
}

/// The nodes of a run of spans in a table cell.
pub open spec fn cell_inline_trees(spans: Seq<RichText>) -> Seq<Tree> {
    spans_trees(spans, None, true, spans.len())
}

/// The nodes of a run of spans whose first span starts with `prefix`.
pub open spec fn prefixed_inline_trees(spans: Seq<RichText>, prefix: Seq<char>) -> Seq<Tree> {
    spans_trees(spans, Some(prefix), false, spans.len())
}

fn text_node(s: String) -> (node: AstNode)
    ensures
        node.tree() == leaf(NodeValueView::Text(s@)),
{
    AstNode::new(NodeValue::Text(s))
}

fn verbatim_node(s: String, cell: bool) -> (node: AstNode)
    ensures
        node.tree() == verbatim(s@, cell),
{
    if cell {
        AstNode::new(NodeValue::Text(s))
    } else {
        AstNode::new(NodeValue::Raw(s))
    }
}

fn tag_node(s: &str) -> (node: AstNode)
    ensures
        node.tree() == leaf(NodeValueView::HtmlInline(s@)),
{
    AstNode::new(NodeValue::HtmlInline(String::from_str(s)))
}

fn layer_node(on: bool, inner: AstNode, marked: bool, empty: bool, value: NodeValue, bare: &str) -> (node:
    AstNode)
    ensures
        node.tree() == layer(on, inner.tree(), marked, empty, value@, bare@),
{
    if !on {
        inner
    } else if marked || !empty {
        AstNode::with_children(value, single(inner))
    } else {
        text_node(String::from_str(bare))
    }
}

impl RichText {
    /// The link target of the span.
    pub open spec fn href(self) -> Option<String> {
        match self {
            RichText::Text { href, .. } => href,
            RichText::Mention { href, .. } => href,
        }
    }

    /// The styles of the span.
    pub open spec fn annotations(self) -> Annotations {
        match self {
            RichText::Text { annotations, .. } => annotations,
            RichText::Mention { annotations, .. } => annotations,
        }
    }

    /// The nodes of the span.
    pub open spec fn trees(self) -> Seq<Tree> {
        span_trees(self.content(), self.href(), self.annotations(), false)
    }

    /// Builds the nodes of one span from its parts.
    pub fn text_to_ast(plain_text: &String, href: &Option<String>, annotations: &Annotations) -> (r:
        Vec<AstNode>)
        ensures
            trees(r@) == span_trees(plain_text@, *href, *annotations, false),
    {
        Self::span_to_ast(plain_text, href, annotations, false)
    }

    /// Builds the nodes of one span from its parts, for a table cell or for
    /// elsewhere.
    pub fn span_to_ast(
        plain_text: &String,
        href: &Option<String>,
        annotations: &Annotations,
        cell: bool,
    ) -> (r: Vec<AstNode>)
        ensures
            trees(r@) == span_trees(plain_text@, *href, *annotations, cell),
    {
        let parts = split_span(plain_text.as_str());
        let empty = plain_text.as_str().is_empty();
        let base = if annotations.code {
            if empty {
                verbatim_node(String::from_str("``"), cell)
            } else {
                AstNode::new(
                    NodeValue::Code(NodeCode { num_backticks: 1, literal: plain_text.clone() }),
                )
            }
        } else {
            verbatim_node(parts.1, cell)
        };
        let node = if annotations.code {
            base
        } else {
            let bold = layer_node(annotations.bold, base, false, empty, NodeValue::Strong, "****");
            let bold_marked = annotations.bold && empty;
            let italic = layer_node(
                annotations.italic,
                bold,
                bold_marked,
                empty,
                NodeValue::Emph,
                "**",
            );
            let italic_marked = bold_marked || (annotations.italic && empty);
            layer_node(
                annotations.strikethrough,
                italic,
                italic_marked,
                empty,
                NodeValue::Strikethrough,
                "~~~~",
            )
        };
        let mut children: Vec<AstNode> = Vec::new();
        proof {
            lemma_trees(children@);
            assert(trees(children@) =~= Seq::<Tree>::empty());
        }
        if !annotations.code && !parts.0.as_str().is_empty() {
            push_node(&mut children, text_node(parts.0));
        }
        if annotations.underline && !annotations.code {
            push_node(&mut children, tag_node("<u>"));
            push_node(&mut children, node);
            push_node(&mut children, tag_node("</u>"));
        } else {
            push_node(&mut children, node);
        }
        if !annotations.code && !parts.2.as_str().is_empty() {
            push_node(&mut children, text_node(parts.2));
        }
        assert(trees(children@) =~= span_body_trees(plain_text@, *annotations, cell));
        match href {
            Some(url) => single(
                AstNode::with_children(
                    NodeValue::Link(NodeLink { url: url.clone(), title: String::new() }),
                    children,
                ),
            ),
            None => children,
        }
    }

    /// Builds the nodes of the span.
    pub fn to_ast(&self) -> (r: Vec<AstNode>)
        ensures
            trees(r@) == self.trees(),
    {
        self.to_ast_in(false)
    }

    /// Builds the nodes of the span, for a table cell or for elsewhere.
    pub fn to_ast_in(&self, cell: bool) -> (r: Vec<AstNode>)
        ensures
            trees(r@) == span_trees(self.content(), self.href(), self.annotations(), cell),
    {
        match self {
            RichText::Text { plain_text, href, annotations } => Self::span_to_ast(
                plain_text,
                href,
                annotations,
                cell,
            ),
            RichText::Mention { mention, href, annotations } => match mention {
                Mention::LinkMention { title } => Self::span_to_ast(title, href, annotations, cell),
                Mention::User { name } => Self::span_to_ast(name, href, annotations, cell),
            },
        }
    }

    /// Builds the nodes of the span with `prefix` in front of its content.
    pub fn to_ast_with_prefix(&self, prefix: &str) -> (r: Vec<AstNode>)
        ensures
            trees(r@) == span_trees(
                prefix@ + self.content(),
                self.href(),
                self.annotations(),
                false,
            ),
    {
        let mut content = String::from_str(prefix);
        match self {
            RichText::Text { plain_text, href, annotations } => {
                content.append(plain_text.as_str());
                Self::text_to_ast(&content, href, annotations)
            },
            RichText::Mention { mention, href, annotations } => {
                match mention {
                    Mention::LinkMention { title } => content.append(title.as_str()),
                    Mention::User { name } => content.append(name.as_str()),
                }
                Self::text_to_ast(&content, href, annotations)
            },
        }
    }
}

/// Builds the nodes of a run of spans.
pub fn spans_to_ast(spans: &Vec<RichText>) -> (r: Vec<AstNode>)
    ensures
        trees(r@) == inline_trees(spans@),
{
    spans_to_ast_in(spans, false)
}

/// Builds the nodes of a run of spans, for a table cell or for elsewhere.
pub fn spans_to_ast_in(spans: &Vec<RichText>, cell: bool) -> (r: Vec<AstNode>)
    ensures
        trees(r@) == spans_trees(spans@, None, cell, spans@.len()),
{
    let mut r: Vec<AstNode> = Vec::new();
    proof {
        lemma_trees(r@);
        assert(trees(r@) =~= Seq::<Tree>::empty());
    }
    let mut i: usize = 0;
    while i < spans.len()
        invariant
            i <= spans.len(),
            trees(r@) == spans_trees(spans@, None, cell, i as nat),
        decreases spans.len() - i,
    {
        extend_nodes(&mut r, spans[i].to_ast_in(cell));
        i = i + 1;
    }
    r
}

/// Builds the nodes of a run of spans whose first span starts with `prefix`.
pub fn spans_to_ast_with_prefix(spans: &Vec<RichText>, prefix: &str) -> (r: Vec<AstNode>)
    ensures
        trees(r@) == prefixed_inline_trees(spans@, prefix@),
{
    let mut r: Vec<AstNode> = Vec::new();
    proof {
        lemma_trees(r@);
        assert(trees(r@) =~= Seq::<Tree>::empty());
    }
    let mut i: usize = 0;
    while i < spans.len()
        invariant
            i <= spans.len(),
            trees(r@) == spans_trees(spans@, Some(prefix@), false, i as nat),
        decreases spans.len() - i,
    {
        if i == 0 {
            extend_nodes(&mut r, spans[i].to_ast_with_prefix(prefix));
        } else {
            extend_nodes(&mut r, spans[i].to_ast());
        }
        i = i + 1;
    }
    r
}

} // verus!
