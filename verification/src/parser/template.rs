//! The template: text, comments and tags, with the tags that open a block
//! matched to the tags that close it.
//!
//! A body is what stands between two tags of a block: nodes, up to a tag
//! that does not start a node (`elif`, `else`, an `end..` tag) or to the end
//! of the text. A block tag takes the body after it and asks for its closing
//! tag where that body stops, so a closing tag is always matched with the
//! innermost open block.

use super::ast::{
    branch_view, branches_view, branches_wf, expr_wf, kwargs_view, node_wf, nodes_view, nodes_wf, template_wf,
    Block, Branch, BranchView, Expr, ExprKind, ExprKindView, ExprView, FilterSection, Forloop, If,
    MacroDefinition, Node, NodeView, SetVariable, Span,
};
use super::errors::{fail, failure, ErrorKind, Expected, Failure};
use super::scan::{
    byte_at, class_has, cut_point, find_open, find_pair, is_byte, is_pair, is_space,
    lemma_find_open_bounds, pair_at, search_open, search_pair, substring, text_of, Class,
    BRACE_CLOSE, BRACE_OPEN, HASH, PERCENT,
};
use super::tags::{
    head_view, head_wf, parse_tag, spec_tag, Keyword, Tag, TagHead, TagHeadView, TagView,
};
use vstd::prelude::*;
use vstd::string::*;

verus! {

broadcast use lemma_find_open_bounds;

/// Where the text from `a` to `b` starts once its leading white space is gone.
pub open spec fn trim_start(src: Seq<u8>, a: int, b: int) -> int
    decreases b - a,
{
    if 0 <= a < b <= src.len() && is_space(src[a]) {
        trim_start(src, a + 1, b)
    } else {
        a
    }
}

/// Where the text from `a` to `b` ends once its trailing white space is gone.
pub open spec fn trim_end(src: Seq<u8>, a: int, b: int) -> int
    decreases b - a,
{
    if 0 <= a < b <= src.len() && is_space(src[b - 1]) {
        trim_end(src, a, b - 1)
    } else {
        b
    }
}

/// The part of the text from `a` to `b` that is kept: all of it, but for the
/// leading white space where the tag before it asks to trim, and the trailing
/// white space where the tag after it does.
pub open spec fn text_bounds(src: Seq<u8>, a: int, b: int, trim_a: bool, trim_b: bool) -> (
    int,
    int,
) {
    let s = if trim_a {
        trim_start(src, a, b)
    } else {
        a
    };
    let e = if trim_b {
        trim_end(src, s, b)
    } else {
        b
    };
    (s, e)
}

/// `acc`, and the text node for the text from `a` to `b` where any of it is
/// kept.
pub open spec fn with_text(
    acc: Seq<NodeView>,
    src: Seq<u8>,
    a: int,
    b: int,
    trim_a: bool,
    trim_b: bool,
) -> Seq<NodeView> {
    let (s, e) = text_bounds(src, a, b, trim_a, trim_b);
    if s < e {
        acc.push(NodeView::Text(text_of(src, s, e)))
    } else {
        acc
    }
}

/// The content of a raw block that stands from `a` to `b`.
pub open spec fn raw_text(src: Seq<u8>, a: int, b: int, trim_a: bool, trim_b: bool) -> Seq<char> {
    let (s, e) = text_bounds(src, a, b, trim_a, trim_b);
    text_of(src, s, e)
}

/// The node of `{{ e }}`: `Super` for `super()`, the expression otherwise.
pub open spec fn variable_node(e: ExprView) -> NodeView {
    match e.node {
        ExprKindView::FunctionCall { name, params } => {
            if name == "super"@ && params.len() == 0 {
                NodeView::Super
            } else {
                NodeView::VariableBlock(e)
            }
        },
        _ => NodeView::VariableBlock(e),
    }
}

/// What a body is: its nodes, and the tag that it stopped at. It stops at
/// no tag where it reaches the end of the text.
#[derive(Debug, PartialEq)]
pub struct Body {
    pub nodes: Vec<Node>,
    pub stop: Option<Tag>,
}

/// The model of a `Body`.
pub struct BodyView {
    pub nodes: Seq<NodeView>,
    pub stop: Option<TagView>,
}

/// The model of the tag that a body stopped at.
pub open spec fn stop_view(t: Option<Tag>) -> Option<TagView> {
    match t {
        Some(t) => Some(t@),
        None => None,
    }
}

impl View for Body {
    type V = BodyView;

    open spec fn view(&self) -> BodyView {
        BodyView { nodes: nodes_view(self.nodes), stop: stop_view(self.stop) }
    }
}

/// The failure of a block without its closing tag: it names the span of the
/// tag that opens it.
pub open spec fn unclosed(open: Span) -> Failure {
    Failure { kind: ErrorKind::StructuralError, span: open, expected: Expected::ClosingTag }
}

/// The failure of a tag that closes or continues a block, without the block:
/// it names the span of that tag.
pub open spec fn unopened(tag: Span) -> Failure {
    Failure { kind: ErrorKind::StructuralError, span: tag, expected: Expected::OpeningTag }
}

/// The tag is the closing tag that the keyword names.
pub open spec fn is_closer(head: TagHeadView, closer: Keyword) -> bool {
    match closer {
        Keyword::EndIf => head is EndIf,
        Keyword::EndFor => head is EndFor,
        Keyword::EndBlock => head is EndBlock,
        Keyword::EndMacro => head is EndMacro,
        Keyword::EndFilter => head is EndFilter,
        _ => false,
    }
}

/// The `endraw` tag that starts at `i`, if one does.
pub open spec fn spec_endraw(src: Seq<u8>, i: int) -> Option<TagView> {
    match spec_tag(src, i) {
        Ok(tag) => if tag.head is EndRaw {
            Some(tag)
        } else {
            None
        },
        Err(_) => None,
    }
}

/// The first place at or after `pos` where an `endraw` tag starts, or the
/// length of `src` where none does.
pub open spec fn find_endraw(src: Seq<u8>, pos: int) -> int
    decreases src.len() - pos,
{
    if 0 <= pos < src.len() && spec_endraw(src, pos) is None {
        find_endraw(src, pos + 1)
    } else {
        pos
    }
}

/// `comment_tag`: `{#`, anything up to the first `#}`, and that `#}`. Gives
/// the end of the comment that starts at `pos`.
pub open spec fn spec_comment(src: Seq<u8>, pos: int) -> Result<int, Failure> {
    if pair_at(src, pos, BRACE_OPEN, HASH) {
        let c = find_pair(src, pos + 2, HASH, BRACE_CLOSE);
        if pos + 2 <= c && c + 2 <= src.len() {
            Ok(c + 2)
        } else {
            Err(
                Failure {
                    kind: ErrorKind::LexicalError,
                    span: Span { start: pos as usize, end: pos as usize },
                    expected: Expected::CommentClose,
                },
            )
        }
    } else {
        Err(failure(src, pos, Expected::CommentOpen))
    }
}

/// The node that a tag is by itself, for the tags that open no block.
pub open spec fn simple_node(head: TagHeadView) -> Option<NodeView> {
    match head {
        TagHeadView::Variable(e) => Some(variable_node(e)),
        TagHeadView::SetVariable { ident, value } => Some(NodeView::SetVariable { ident, value }),
        TagHeadView::Extends(file) => Some(NodeView::Extends(file)),
        TagHeadView::Include(file) => Some(NodeView::Include(file)),
        TagHeadView::Import(file, namespace) => Some(NodeView::ImportMacro(file, namespace)),
        _ => None,
    }
}

/// The closing tag that a `for`, `block`, `macro` or `filter` tag asks for.
pub open spec fn closer_of(head: TagHeadView) -> Option<Keyword> {
    match head {
        TagHeadView::For { .. } => Some(Keyword::EndFor),
        TagHeadView::Block(_) => Some(Keyword::EndBlock),
        TagHeadView::Macro { .. } => Some(Keyword::EndMacro),
        TagHeadView::Filter { .. } => Some(Keyword::EndFilter),
        _ => None,
    }
}

/// The node of the block that `head` opens, with the body `body`.
pub open spec fn block_node(head: TagHeadView, body: Seq<NodeView>) -> NodeView {
    match head {
        TagHeadView::For { key, value, container } => NodeView::For { key, value, container, body },
        TagHeadView::Block(name) => NodeView::Block { name, body },
        TagHeadView::Macro { name, params } => NodeView::MacroDefinition { name, params, body },
        TagHeadView::Filter { name, params } => NodeView::FilterSection { name, params, body },
        _ => NodeView::Template(body),
    }
}

/// The content of the raw block whose `raw` tag is `open`, and its `endraw`
/// tag.
pub open spec fn spec_raw(src: Seq<u8>, open: TagView) -> Result<(NodeView, TagView), Failure> {
    let from = open.span.end as int;
    let r = find_endraw(src, from);
    match spec_endraw(src, r) {
        Some(close) => Ok(
            (NodeView::Raw(raw_text(src, from, r, open.trim_after, close.trim_before)), close),
        ),
        None => Err(unclosed(open.span)),
    }
}

/// What a tag is to the body that it stands in.
#[derive(Copy, Clone, Debug, PartialEq, Eq, Structural)]
pub enum Shape {
    /// A node by itself.
    Simple,
    /// The start of a raw block, a conditional or a block.
    Nested,
    /// The end of the body.
    Stop,
}

/// The shape of a tag with the head `head`.
pub open spec fn shape_of(head: TagHeadView) -> Shape {
    if simple_node(head) is Some {
        Shape::Simple
    } else if head is Raw || head is If || closer_of(head) is Some {
        Shape::Nested
    } else {
        Shape::Stop
    }
}

/// The tag that starts at `span.start` has the span `span` and the shape
/// `shape`.
pub open spec fn tag_at(src: Seq<u8>, span: Span, shape: Shape) -> bool {
    match spec_tag(src, span.start as int) {
        Ok(tag) => tag.span == span && shape_of(tag.head) == shape,
        Err(_) => false,
    }
}

/// A structural failure names a tag of the text. Where a closing tag was
/// expected, it has the span of a tag that opens a block; where an opening
/// tag was, the span of a tag that closes or continues one.
pub open spec fn names_tag(src: Seq<u8>, f: Failure) -> bool {
    f.kind == ErrorKind::StructuralError ==> {
        ||| f.expected == Expected::ClosingTag && tag_at(src, f.span, Shape::Nested)
        ||| f.expected == Expected::OpeningTag && tag_at(src, f.span, Shape::Stop)
    }
}

/// The body that starts at `pos`, added to `acc`. `trim` says that the tag
/// before it asks to trim the text that follows it. The body goes on after a
/// tag, and after what a tag encloses, only from a later position in the
/// text: the tags of this grammar always end after they start.
#[verifier::opaque]
pub open spec fn spec_body(src: Seq<u8>, pos: int, trim: bool, acc: Seq<NodeView>) -> Result<
    BodyView,
    Failure,
>
    decreases src.len() - pos, 0int,
    when 0 <= pos <= src.len()
{
    let t = find_open(src, pos);
    if t >= src.len() {
        Ok(
            BodyView {
                nodes: with_text(acc, src, pos, src.len() as int, trim, false),
                stop: None,
            },
        )
    } else if byte_at(src, t + 1, HASH) {
        match spec_comment(src, t) {
            Err(f) => Err(f),
            Ok(e) => spec_body(src, e, false, with_text(acc, src, pos, t, trim, false)),
        }
    } else {
        match spec_tag(src, t) {
            Err(f) => Err(f),
            Ok(tag) => {
                let next = tag.span.end as int;
                let nodes = with_text(acc, src, pos, t, trim, tag.trim_before);
                if !(t < next <= src.len()) {
                    Err(unclosed(tag.span))
                } else if simple_node(tag.head) is Some {
                    spec_body(src, next, tag.trim_after, nodes.push(simple_node(tag.head).unwrap()))
                } else if tag.head is Raw || tag.head is If || closer_of(tag.head) is Some {
                    match spec_nested(src, tag) {
                        Err(f) => Err(f),
                        Ok((node, close)) => {
                            if next <= close.span.end <= src.len() {
                                spec_body(
                                    src,
                                    close.span.end as int,
                                    close.trim_after,
                                    nodes.push(node),
                                )
                            } else {
                                Err(unclosed(tag.span))
                            }
                        },
                    }
                } else {
                    Ok(BodyView { nodes, stop: Some(tag) })
                }
            },
        }
    }
}

/// The node of the raw block, conditional or block that the tag `open`
/// opens, and the tag that closes it.
#[verifier::opaque]
pub open spec fn spec_nested(src: Seq<u8>, open: TagView) -> Result<(NodeView, TagView), Failure>
    decreases src.len() - open.span.end, 2int,
    when 0 <= open.span.end <= src.len()
{
    match open.head {
        TagHeadView::Raw => spec_raw(src, open),
        TagHeadView::If(condition) => spec_if(
            src,
            open.span,
            condition,
            open.span.end as int,
            open.trim_after,
            Seq::empty(),
        ),
        _ => match closer_of(open.head) {
            Some(closer) => match spec_block(
                src,
                open.span,
                open.span.end as int,
                open.trim_after,
                closer,
            ) {
                Err(f) => Err(f),
                Ok((body, close)) => Ok((block_node(open.head, body), close)),
            },
            None => Err(unclosed(open.span)),
        },
    }
}

/// The body of the block that the tag at `open` opens, from `pos` up to the
/// closing tag that `closer` names, and that closing tag. A body that stops
/// at another tag, or at the end of the text, leaves the block unclosed.
#[verifier::opaque]
pub open spec fn spec_block(
    src: Seq<u8>,
    open: Span,
    pos: int,
    trim: bool,
    closer: Keyword,
) -> Result<(Seq<NodeView>, TagView), Failure>
    decreases src.len() - pos, 1int,
    when 0 <= pos <= src.len()
{
    match spec_body(src, pos, trim, Seq::empty()) {
        Err(f) => Err(f),
        Ok(b) => match b.stop {
            Some(close) => if is_closer(close.head, closer) {
                Ok((b.nodes, close))
            } else {
                Err(unclosed(open))
            },
            None => Err(unclosed(open)),
        },
    }
}

/// What follows the `if` or `elif` with the condition `condition`, from
/// `pos` up to the `endif`: the conditional, with the branches `acc` before
/// this one, and the `endif` tag.
#[verifier::opaque]
pub open spec fn spec_if(
    src: Seq<u8>,
    open: Span,
    condition: ExprView,
    pos: int,
    trim: bool,
    acc: Seq<BranchView>,
) -> Result<(NodeView, TagView), Failure>
    decreases src.len() - pos, 1int,
    when 0 <= pos <= src.len()
{
    match spec_body(src, pos, trim, Seq::empty()) {
        Err(f) => Err(f),
        Ok(b) => match b.stop {
            None => Err(unclosed(open)),
            Some(tag) => {
                let branches = acc.push(BranchView { condition, body: b.nodes });
                let next = tag.span.end as int;
                if !(pos < next <= src.len()) {
                    Err(unclosed(open))
                } else {
                    match tag.head {
                        TagHeadView::Elif(c) => spec_if(
                            src,
                            open,
                            c,
                            next,
                            tag.trim_after,
                            branches,
                        ),
                        TagHeadView::Else => match spec_block(
                            src,
                            open,
                            next,
                            tag.trim_after,
                            Keyword::EndIf,
                        ) {
                            Err(f) => Err(f),
                            Ok((body, close)) => Ok(
                                (NodeView::If { branches, otherwise: Some(body) }, close),
                            ),
                        },
                        TagHeadView::EndIf => Ok(
                            (NodeView::If { branches, otherwise: None }, tag),
                        ),
                        _ => Err(unclosed(open)),
                    }
                }
            },
        },
    }
}

/// The template that the text is: the body of the whole text, which no tag
/// may stop.
pub open spec fn spec_template(src: Seq<u8>) -> Result<NodeView, Failure> {
    match spec_body(src, 0, false, Seq::empty()) {
        Err(f) => Err(f),
        Ok(b) => match b.stop {
            None => Ok(NodeView::Template(b.nodes)),
            Some(tag) => Err(unopened(tag.span)),
        },
    }
}

/// Parses the comment that starts at `pos`, and gives its end.
pub fn parse_comment(bytes: &[u8], pos: usize) -> (r: Result<usize, Failure>)
    requires
        pos <= bytes.len(),
    ensures
        match r {
            Ok(e) => spec_comment(bytes@, pos as int) == Ok::<int, Failure>(e as int) && pos < e
                <= bytes.len() && cut_point(bytes@, e as int),
            Err(f) => {
                &&& spec_comment(bytes@, pos as int) == Err::<int, Failure>(f)
                &&& f.span.within(bytes@.len() as int)
                &&& f.kind != ErrorKind::StructuralError
            },
        },
{
    if !is_pair(bytes, pos, BRACE_OPEN, HASH) {
        return Err(fail(bytes, pos, Expected::CommentOpen));
    }
    let c = search_pair(bytes, pos + 2, HASH, BRACE_CLOSE);
    if c < bytes.len() {
        Ok(c + 2)
    } else {
        Err(
            Failure {
                kind: ErrorKind::LexicalError,
                span: Span { start: pos, end: pos },
                expected: Expected::CommentClose,
            },
        )
    }
}

/// The part of the text from `a` to `b` that is kept.
pub fn text_range(bytes: &[u8], a: usize, b: usize, trim_a: bool, trim_b: bool) -> (r: (
    usize,
    usize,
))
    requires
        a <= b <= bytes.len(),
        cut_point(bytes@, a as int),
        cut_point(bytes@, b as int),
    ensures
        (r.0 as int, r.1 as int) == text_bounds(bytes@, a as int, b as int, trim_a, trim_b),
        a <= r.0 <= r.1 <= b,
        cut_point(bytes@, r.0 as int),
        cut_point(bytes@, r.1 as int),
{
    let mut s: usize = a;
    if trim_a {
        while s < b && class_has(Class::Space, bytes[s])
            invariant
                a <= s <= b <= bytes.len(),
                cut_point(bytes@, s as int),
                trim_start(bytes@, a as int, b as int) == trim_start(bytes@, s as int, b as int),
            decreases b - s,
        {
            s += 1;
        }
    }
    let mut e: usize = b;
    if trim_b {
        while s < e && class_has(Class::Space, bytes[e - 1])
            invariant
                s <= e <= b <= bytes.len(),
                cut_point(bytes@, e as int),
                trim_end(bytes@, s as int, b as int) == trim_end(bytes@, s as int, e as int),
            decreases e - s,
        {
            e -= 1;
        }
    }
    (s, e)
}

/// Adds the text node for the text from `a` to `b` to `nodes`, where any of
/// the text is kept.
pub fn push_text(nodes: &mut Vec<Node>, src: &str, a: usize, b: usize, trim_a: bool, trim_b: bool)
    requires
        a <= b <= src.spec_bytes().len(),
        cut_point(src.spec_bytes(), a as int),
        cut_point(src.spec_bytes(), b as int),
    ensures
        nodes_view(*final(nodes)) == with_text(
            nodes_view(*old(nodes)),
            src.spec_bytes(),
            a as int,
            b as int,
            trim_a,
            trim_b,
        ),
        forall|len: int|
            nodes_wf(nodes_view(*old(nodes)), len) ==> #[trigger] nodes_wf(
                nodes_view(*final(nodes)),
                len,
            ),
{
    let (s, e) = text_range(src.as_bytes(), a, b, trim_a, trim_b);
    if s < e {
        let ghost before = nodes_view(*nodes);
        let text = substring(src, s, e);
        nodes.push(Node::Text(text));
        assert(nodes_view(*nodes) =~= before.push(NodeView::Text(text@)));
    }
}

/// Adds `node` to `nodes`.
pub fn push_node(nodes: &mut Vec<Node>, node: Node)
    ensures
        nodes_view(*final(nodes)) == nodes_view(*old(nodes)).push(node@),
        forall|len: int|
            nodes_wf(nodes_view(*old(nodes)), len) && node_wf(node@, len)
                ==> #[trigger] nodes_wf(nodes_view(*final(nodes)), len),
{
    let ghost before = nodes_view(*nodes);
    let ghost view = node@;
    nodes.push(node);
    assert(nodes_view(*nodes) =~= before.push(view));
}

/// The node of `{{ e }}`.
pub fn make_variable_node(e: Expr) -> (n: Node)
    ensures
        n@ == variable_node(e@),
        forall|len: int| expr_wf(e@, len) ==> #[trigger] node_wf(n@, len),
{
    let is_super = match &e.node {
        ExprKind::FunctionCall(call) => {
            let name = "super".to_owned();
            assert(kwargs_view(call.params).len() == call.params.len());
            call.name == name && call.params.len() == 0
        },
        _ => false,
    };
    if is_super {
        Node::Super
    } else {
        Node::VariableBlock(e)
    }
}

/// Whether the tag is the closing tag that the keyword names.
pub fn check_closer(head: &TagHead, closer: Keyword) -> (r: bool)
    ensures
        r == is_closer(head_view(*head), closer),
{
    match closer {
        Keyword::EndIf => match head {
            TagHead::EndIf => true,
            _ => false,
        },
        Keyword::EndFor => match head {
            TagHead::EndFor => true,
            _ => false,
        },
        Keyword::EndBlock => match head {
            TagHead::EndBlock => true,
            _ => false,
        },
        Keyword::EndMacro => match head {
            TagHead::EndMacro => true,
            _ => false,
        },
        Keyword::EndFilter => match head {
            TagHead::EndFilter => true,
            _ => false,
        },
        _ => false,
    }
}

/// The `endraw` tag that starts at `i`, if one does.
pub fn parse_endraw(src: &str, i: usize) -> (r: Option<Tag>)
    requires
        i <= src.spec_bytes().len(),
    ensures
        stop_view(r) == spec_endraw(src.spec_bytes(), i as int),
        match r {
            Some(t) => i < t.span.end <= src.spec_bytes().len() && cut_point(
                src.spec_bytes(),
                t.span.end as int,
            ) && cut_point(src.spec_bytes(), i as int),
            None => true,
        },
{
    reveal(spec_tag);
    let bytes = src.as_bytes();
    if !is_pair(bytes, i, BRACE_OPEN, PERCENT) {
        return None;
    }
    match parse_tag(src, i) {
        Ok(tag) => {
            let found = match &tag.head {
                TagHead::EndRaw => true,
                _ => false,
            };
            if found {
                Some(tag)
            } else {
                None
            }
        },
        Err(_) => None,
    }
}

/// The first `endraw` tag at or after `pos`, and where it starts.
pub fn search_endraw(src: &str, pos: usize) -> (r: Option<(usize, Tag)>)
    requires
        pos <= src.spec_bytes().len(),
    ensures
        match r {
            Some((i, t)) => i == find_endraw(src.spec_bytes(), pos as int) && spec_endraw(
                src.spec_bytes(),
                i as int,
            ) == Some(t@) && pos <= i < t.span.end <= src.spec_bytes().len() && cut_point(
                src.spec_bytes(),
                t.span.end as int,
            ) && cut_point(src.spec_bytes(), i as int),
            None => spec_endraw(
                src.spec_bytes(),
                find_endraw(src.spec_bytes(), pos as int),
            ) is None,
        },
{
    let bytes = src.as_bytes();
    let mut i: usize = pos;
    while i < bytes.len()
        invariant
            bytes@ == src.spec_bytes(),
            pos <= i <= bytes.len(),
            find_endraw(bytes@, pos as int) == find_endraw(bytes@, i as int),
        decreases bytes.len() - i,
    {
        match parse_endraw(src, i) {
            Some(tag) => {
                return Some((i, tag));
            },
            None => {},
        }
        i += 1;
    }
    proof {
        reveal(spec_tag);
        assert(spec_tag(bytes@, i as int) is Err);
    }
    None
}

/// The shape of a tag.
pub fn shape(head: &TagHead) -> (r: Shape)
    ensures
        r == shape_of(head_view(*head)),
{
    match head {
        TagHead::Variable(_) => Shape::Simple,
        TagHead::SetVariable { .. } => Shape::Simple,
        TagHead::Extends(_) => Shape::Simple,
        TagHead::Include(_) => Shape::Simple,
        TagHead::Import(_, _) => Shape::Simple,
        TagHead::Raw => Shape::Nested,
        TagHead::If(_) => Shape::Nested,
        TagHead::For { .. } => Shape::Nested,
        TagHead::Block(_) => Shape::Nested,
        TagHead::Macro { .. } => Shape::Nested,
        TagHead::Filter { .. } => Shape::Nested,
        _ => Shape::Stop,
    }
}

/// The node that a tag is by itself.
pub fn make_simple_node(head: TagHead) -> (n: Node)
    requires
        simple_node(head_view(head)) is Some,
    ensures
        Some(n@) == simple_node(head_view(head)),
        forall|len: int|
            head_wf(head_view(head), len) ==> #[trigger] node_wf(n@, len),
{
    match head {
        TagHead::Variable(e) => make_variable_node(e),
        TagHead::SetVariable { ident, value } => Node::SetVariable(SetVariable { ident, value }),
        TagHead::Extends(file) => Node::Extends(file),
        TagHead::Include(file) => Node::Include(file),
        TagHead::Import(file, namespace) => Node::ImportMacro(file, namespace),
        _ => Node::Super,
    }
}

/// The closing tag that a `for`, `block`, `macro` or `filter` tag asks for.
pub fn closer(head: &TagHead) -> (r: Option<Keyword>)
    ensures
        r == closer_of(head_view(*head)),
{
    match head {
        TagHead::For { .. } => Some(Keyword::EndFor),
        TagHead::Block(_) => Some(Keyword::EndBlock),
        TagHead::Macro { .. } => Some(Keyword::EndMacro),
        TagHead::Filter { .. } => Some(Keyword::EndFilter),
        _ => None,
    }
}

/// The node of the block that `head` opens, with the body `body`.
pub fn make_block_node(head: TagHead, body: Vec<Node>) -> (n: Node)
    requires
        closer_of(head_view(head)) is Some,
    ensures
        n@ == block_node(head_view(head), nodes_view(body)),
        forall|len: int|
            head_wf(head_view(head), len) && nodes_wf(nodes_view(body), len)
                ==> #[trigger] node_wf(n@, len),
{
    match head {
        TagHead::For { key, value, container } => Node::For(
            Forloop { key, value, container, body },
        ),
        TagHead::Block(name) => Node::Block(Block { name, body }),
        TagHead::Macro { name, params } => Node::MacroDefinition(
            MacroDefinition { name, params, body },
        ),
        TagHead::Filter { name, params } => Node::FilterSection(
            FilterSection { name, params, body },
        ),
        _ => Node::Template(body),
    }
}

/// Parses the content of the raw block whose `raw` tag is `open`.
pub fn parse_raw(src: &str, open: Tag) -> (r: Result<(Node, Tag), Failure>)
    requires
        open.span.end <= src.spec_bytes().len(),
        cut_point(src.spec_bytes(), open.span.end as int),
    ensures
        match r {
            Ok((node, close)) => spec_raw(src.spec_bytes(), open@) == Ok::<
                (NodeView, TagView),
                Failure,
            >((node@, close@)) && open.span.end < close.span.end <= src.spec_bytes().len()
                && cut_point(src.spec_bytes(), close.span.end as int) && node_wf(
                node@,
                src.spec_bytes().len() as int,
            ),
            Err(f) => {
                &&& spec_raw(src.spec_bytes(), open@) == Err::<(NodeView, TagView), Failure>(f)
                &&& open.span.within(src.spec_bytes().len() as int) ==> f.span.within(
                    src.spec_bytes().len() as int,
                )
                &&& tag_at(src.spec_bytes(), open.span, Shape::Nested) ==> names_tag(
                    src.spec_bytes(),
                    f,
                )
            },
        },
{
    match search_endraw(src, open.span.end) {
        None => Err(
            Failure {
                kind: ErrorKind::StructuralError,
                span: open.span,
                expected: Expected::ClosingTag,
            },
        ),
        Some((r, close)) => {
            let (s, e) = text_range(
                src.as_bytes(),
                open.span.end,
                r,
                open.trim_after,
                close.trim_before,
            );
            Ok((Node::Raw(substring(src, s, e)), close))
        },
    }
}

/// Parses the body that starts at `pos`.
pub fn parse_body(src: &str, pos: usize, trim: bool) -> (r: Result<Body, Failure>)
    requires
        pos <= src.spec_bytes().len(),
        cut_point(src.spec_bytes(), pos as int),
    ensures
        match r {
            Ok(b) => spec_body(src.spec_bytes(), pos as int, trim, Seq::empty()) == Ok::<
                BodyView,
                Failure,
            >(b@) && nodes_wf(b@.nodes, src.spec_bytes().len() as int) && match b.stop {
                Some(t) => {
                    &&& pos < t.span.end <= src.spec_bytes().len()
                    &&& t.span.start < t.span.end
                    &&& cut_point(src.spec_bytes(), t.span.end as int)
                    &&& head_wf(t@.head, src.spec_bytes().len() as int)
                    &&& tag_at(src.spec_bytes(), t.span, Shape::Stop)
                },
                None => true,
            },
            Err(f) => {
                &&& spec_body(src.spec_bytes(), pos as int, trim, Seq::empty()) == Err::<
                    BodyView,
                    Failure,
                >(f)
                &&& f.span.within(src.spec_bytes().len() as int)
                &&& names_tag(src.spec_bytes(), f)
            },
        },
    decreases src.spec_bytes().len() - pos, 0int,
{
    reveal(spec_body);
    reveal(spec_nested);
    let bytes = src.as_bytes();
    let mut nodes: Vec<Node> = Vec::new();
    let mut start: usize = pos;
    let mut trimming: bool = trim;
    assert(nodes_view(nodes) =~= Seq::empty());
    loop
        invariant
            bytes@ == src.spec_bytes(),
            pos <= start <= bytes.len(),
            cut_point(bytes@, start as int),
            spec_body(bytes@, pos as int, trim, Seq::empty()) == spec_body(
                bytes@,
                start as int,
                trimming,
                nodes_view(nodes),
            ),
            nodes_wf(nodes_view(nodes), bytes@.len() as int),
        decreases bytes.len() - start,
    {
        reveal(spec_body);
        reveal(spec_nested);
        let t = search_open(bytes, start);
        if t >= bytes.len() {
            push_text(&mut nodes, src, start, bytes.len(), trimming, false);
            return Ok(Body { nodes, stop: None });
        }
        if is_byte(bytes, t + 1, HASH) {
            match parse_comment(bytes, t) {
                Err(f) => {
                    return Err(f);
                },
                Ok(e) => {
                    push_text(&mut nodes, src, start, t, trimming, false);
                    start = e;
                    trimming = false;
                },
            }
            continue ;
        }
        let tag = match parse_tag(src, t) {
            Err(f) => {
                return Err(f);
            },
            Ok(tag) => tag,
        };
        push_text(&mut nodes, src, start, t, trimming, tag.trim_before);
        match shape(&tag.head) {
            Shape::Simple => {
                let next = tag.span.end;
                let after = tag.trim_after;
                push_node(&mut nodes, make_simple_node(tag.head));
                start = next;
                trimming = after;
            },
            Shape::Nested => {
                match parse_nested(src, tag) {
                    Err(f) => {
                        return Err(f);
                    },
                    Ok((node, close)) => {
                        push_node(&mut nodes, node);
                        start = close.span.end;
                        trimming = close.trim_after;
                    },
                }
            },
            Shape::Stop => {
                return Ok(Body { nodes, stop: Some(tag) });
            },
        }
    }
}

/// Parses the raw block, conditional or block that the tag `open` opens.
pub fn parse_nested(src: &str, open: Tag) -> (r: Result<(Node, Tag), Failure>)
    requires
        open.span.end <= src.spec_bytes().len(),
        cut_point(src.spec_bytes(), open.span.end as int),
    ensures
        match r {
            Ok((node, close)) => spec_nested(src.spec_bytes(), open@) == Ok::<
                (NodeView, TagView),
                Failure,
            >((node@, close@)) && open.span.end < close.span.end <= src.spec_bytes().len()
                && cut_point(src.spec_bytes(), close.span.end as int) && (head_wf(
                open@.head,
                src.spec_bytes().len() as int,
            ) ==> node_wf(node@, src.spec_bytes().len() as int)),
            Err(f) => {
                &&& spec_nested(src.spec_bytes(), open@) == Err::<(NodeView, TagView), Failure>(f)
                &&& open.span.within(src.spec_bytes().len() as int) ==> f.span.within(
                    src.spec_bytes().len() as int,
                )
                &&& tag_at(src.spec_bytes(), open.span, Shape::Nested) ==> names_tag(
                    src.spec_bytes(),
                    f,
                )
            },
        },
    decreases src.spec_bytes().len() - open.span.end, 2int,
{
    reveal(spec_nested);
    reveal(spec_if);
    reveal(spec_block);
    match closer(&open.head) {
        Some(closing) => {
            let Tag { head, span, trim_before: _, trim_after } = open;
            match parse_block(src, span, span.end, trim_after, closing) {
                Err(f) => Err(f),
                Ok((body, close)) => Ok((make_block_node(head, body), close)),
            }
        },
        None => {
            let is_raw = match &open.head {
                TagHead::Raw => true,
                _ => false,
            };
            if is_raw {
                return parse_raw(src, open);
            }
            let Tag { head, span, trim_before: _, trim_after } = open;
            match head {
                TagHead::If(condition) => parse_if(src, span, condition, span.end, trim_after),
                _ => Err(
                    Failure {
                        kind: ErrorKind::StructuralError,
                        span,
                        expected: Expected::ClosingTag,
                    },
                ),
            }
        },
    }
}

/// Parses the body of the block that the tag at `open` opens, up to the
/// closing tag that `closer` names.
pub fn parse_block(src: &str, open: Span, pos: usize, trim: bool, closer: Keyword) -> (r: Result<
    (Vec<Node>, Tag),
    Failure,
>)
    requires
        pos <= src.spec_bytes().len(),
        cut_point(src.spec_bytes(), pos as int),
    ensures
        match r {
            Ok((nodes, close)) => spec_block(src.spec_bytes(), open, pos as int, trim, closer)
                == Ok::<(Seq<NodeView>, TagView), Failure>((nodes_view(nodes), close@)) && pos
                < close.span.end <= src.spec_bytes().len() && cut_point(
                src.spec_bytes(),
                close.span.end as int,
            ) && nodes_wf(nodes_view(nodes), src.spec_bytes().len() as int),
            Err(f) => {
                &&& spec_block(src.spec_bytes(), open, pos as int, trim, closer) == Err::<
                    (Seq<NodeView>, TagView),
                    Failure,
                >(f)
                &&& open.within(src.spec_bytes().len() as int) ==> f.span.within(
                    src.spec_bytes().len() as int,
                )
                &&& tag_at(src.spec_bytes(), open, Shape::Nested) ==> names_tag(
                    src.spec_bytes(),
                    f,
                )
            },
        },
    decreases src.spec_bytes().len() - pos, 1int,
{
    reveal(spec_block);
    reveal(spec_body);
    match parse_body(src, pos, trim) {
        Err(f) => Err(f),
        Ok(body) => {
            let Body { nodes, stop } = body;
            match stop {
                Some(close) => {
                    if check_closer(&close.head, closer) {
                        Ok((nodes, close))
                    } else {
                        Err(
                            Failure {
                                kind: ErrorKind::StructuralError,
                                span: open,
                                expected: Expected::ClosingTag,
                            },
                        )
                    }
                },
                None => Err(
                    Failure {
                        kind: ErrorKind::StructuralError,
                        span: open,
                        expected: Expected::ClosingTag,
                    },
                ),
            }
        },
    }
}

/// Parses what follows an `if` tag, up to its `endif`.
pub fn parse_if(src: &str, open: Span, condition: Expr, pos: usize, trim: bool) -> (r: Result<
    (Node, Tag),
    Failure,
>)
    requires
        pos <= src.spec_bytes().len(),
        cut_point(src.spec_bytes(), pos as int),
    ensures
        match r {
            Ok((node, close)) => spec_if(
                src.spec_bytes(),
                open,
                condition@,
                pos as int,
                trim,
                Seq::empty(),
            ) == Ok::<(NodeView, TagView), Failure>((node@, close@)) && pos < close.span.end
                <= src.spec_bytes().len() && cut_point(src.spec_bytes(), close.span.end as int)
                && (expr_wf(condition@, src.spec_bytes().len() as int) ==> node_wf(
                node@,
                src.spec_bytes().len() as int,
            )),
            Err(f) => {
                &&& spec_if(src.spec_bytes(), open, condition@, pos as int, trim, Seq::empty())
                    == Err::<(NodeView, TagView), Failure>(f)
                &&& open.within(src.spec_bytes().len() as int) ==> f.span.within(
                    src.spec_bytes().len() as int,
                )
                &&& tag_at(src.spec_bytes(), open, Shape::Nested) ==> names_tag(
                    src.spec_bytes(),
                    f,
                )
            },
        },
    decreases src.spec_bytes().len() - pos, 1int,
{
    reveal(spec_if);
    reveal(spec_body);
    reveal(spec_block);
    let ghost bytes = src.spec_bytes();
    let ghost first = condition@;
    let mut branches: Vec<Branch> = Vec::new();
    let mut current: Expr = condition;
    let mut start: usize = pos;
    let mut trimming: bool = trim;
    assert(branches_view(branches) =~= Seq::empty());
    loop
        invariant
            bytes == src.spec_bytes(),
            first == condition@,
            pos <= start <= bytes.len(),
            cut_point(bytes, start as int),
            spec_if(bytes, open, first, pos as int, trim, Seq::empty()) == spec_if(
                bytes,
                open,
                current@,
                start as int,
                trimming,
                branches_view(branches),
            ),
            expr_wf(first, bytes.len() as int) ==> expr_wf(current@, bytes.len() as int)
                && branches_wf(branches_view(branches), bytes.len() as int),
        decreases bytes.len() - start,
    {
        reveal(spec_if);
        reveal(spec_body);
        reveal(spec_block);
        let body = match parse_body(src, start, trimming) {
            Err(f) => {
                return Err(f);
            },
            Ok(body) => body,
        };
        let Body { nodes, stop } = body;
        let tag = match stop {
            None => {
                return Err(
                    Failure {
                        kind: ErrorKind::StructuralError,
                        span: open,
                        expected: Expected::ClosingTag,
                    },
                );
            },
            Some(tag) => tag,
        };
        let ghost before = branches_view(branches);
        let branch = Branch { condition: current, body: nodes };
        let ghost view = branch_view(branch);
        branches.push(branch);
        assert(branches_view(branches) =~= before.push(view));
        let ghost tag_view = tag@;
        let Tag { head, span, trim_before, trim_after } = tag;
        match head {
            TagHead::Elif(c) => {
                current = c;
                start = span.end;
                trimming = trim_after;
            },
            TagHead::Else => {
                return match parse_block(src, open, span.end, trim_after, Keyword::EndIf) {
                    Err(f) => Err(f),
                    Ok((other, close)) => Ok(
                        (Node::If(If { branches, otherwise: Some(other) }), close),
                    ),
                };
            },
            TagHead::EndIf => {
                let close = Tag { head: TagHead::EndIf, span, trim_before, trim_after };
                assert(close@ == tag_view);
                return Ok((Node::If(If { branches, otherwise: None }), close));
            },
            _ => {
                return Err(
                    Failure {
                        kind: ErrorKind::StructuralError,
                        span: open,
                        expected: Expected::ClosingTag,
                    },
                );
            },
        }
    }
}

/// Parses a whole template.
pub fn parse_template(src: &str) -> (r: Result<Node, Failure>)
    ensures
        match r {
            Ok(n) => spec_template(src.spec_bytes()) == Ok::<NodeView, Failure>(n@)
                && template_wf(n@, src.spec_bytes().len() as int),
            Err(f) => {
                &&& spec_template(src.spec_bytes()) == Err::<NodeView, Failure>(f)
                &&& f.span.within(src.spec_bytes().len() as int)
                &&& names_tag(src.spec_bytes(), f)
            },
        },
{
    match parse_body(src, 0, false) {
        Err(f) => Err(f),
        Ok(body) => {
            let Body { nodes, stop } = body;
            match stop {
                None => Ok(Node::Template(nodes)),
                Some(tag) => Err(
                    Failure {
                        kind: ErrorKind::StructuralError,
                        span: tag.span,
                        expected: Expected::OpeningTag,
                    },
                ),
            }
        },
    }
}

} // verus!
