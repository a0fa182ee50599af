//! The syntax tree of a template, and the mathematical model (`*View` types)
//! that contracts speak of.

use vstd::prelude::*;

verus! {

/// All math operators
#[derive(Copy, Clone, Debug, PartialEq, Eq, Structural)]
pub enum MathOperator {
    /// +
    Add,
    /// -
    Sub,
    /// *
    Mul,
    /// /
    Div,
}

impl MathOperator {
    /// The operator as it is written in a template.
    pub open spec fn symbol(self) -> Seq<char> {
        match self {
            MathOperator::Add => "+"@,
            MathOperator::Sub => "-"@,
            MathOperator::Mul => "*"@,
            MathOperator::Div => "/"@,
        }
    }

    /// The operator as it is written in a template.
    pub fn as_str(&self) -> (s: &'static str)
        ensures
            s@ == self.symbol(),
    {
        match *self {
            MathOperator::Add => "+",
            MathOperator::Sub => "-",
            MathOperator::Mul => "*",
            MathOperator::Div => "/",
        }
    }

    /// The operator as it is written in a template, as an owned string.
    pub fn to_string(&self) -> (s: String)
        ensures
            s@ == self.symbol(),
    {
        self.as_str().to_owned()
    }
}

/// All logic operators
#[derive(Copy, Clone, Debug, PartialEq, Eq, Structural)]
pub enum LogicOperator {
    /// >
    Gt,
    /// >=
    Gte,
    /// <
    Lt,
    /// <=
    Lte,
    /// ==
    Eq,
    /// !=
    NotEq,
    /// and
    And,
    /// or
    Or,
}

impl LogicOperator {
    /// The operator as it is written in a template.
    pub open spec fn symbol(self) -> Seq<char> {
        match self {
            LogicOperator::Gt => ">"@,
            LogicOperator::Gte => ">="@,
            LogicOperator::Lt => "<"@,
            LogicOperator::Lte => "<="@,
            LogicOperator::Eq => "=="@,
            LogicOperator::NotEq => "!="@,
            LogicOperator::And => "and"@,
            LogicOperator::Or => "or"@,
        }
    }

    /// The operator as it is written in a template.
    pub fn as_str(&self) -> (s: &'static str)
        ensures
            s@ == self.symbol(),
    {
        match *self {
            LogicOperator::Gt => ">",
            LogicOperator::Gte => ">=",
            LogicOperator::Lt => "<",
            LogicOperator::Lte => "<=",
            LogicOperator::Eq => "==",
            LogicOperator::NotEq => "!=",
            LogicOperator::And => "and",
            LogicOperator::Or => "or",
        }
    }

    /// The operator as it is written in a template, as an owned string.
    pub fn to_string(&self) -> (s: String)
        ensures
            s@ == self.symbol(),
    {
        self.as_str().to_owned()
    }
}

/// A half-open range `[start, end)` of byte offsets into the source text.
#[derive(Copy, Clone, Debug, PartialEq, Eq, Structural)]
pub struct Span {
    pub start: usize,
    pub end: usize,
}

impl Span {
    /// The range is not inverted and lies inside a text of `len` bytes.
    pub open spec fn within(self, len: int) -> bool {
        self.start <= self.end && self.end <= len
    }

    /// The span from `start` to `end`.
    pub fn new(start: usize, end: usize) -> (s: Span)
        ensures
            s == (Span { start, end }),
    {
        Span { start, end }
    }

    /// Where the span starts.
    pub fn start(&self) -> (r: usize)
        ensures
            r == self.start,
    {
        self.start
    }

    /// Where the span ends.
    pub fn end(&self) -> (r: usize)
        ensures
            r == self.end,
    {
        self.end
    }
}

/// A struct that contains the position of the node
#[derive(Clone, Debug, PartialEq)]
pub struct Spanned<T> {
    pub node: T,
    pub span: Span,
}

/// All literals used in templates by template writers
///
/// eg 42, "hello", true, 0.1
#[derive(Clone, Debug, PartialEq)]
pub enum LitKind {
    String(String),
    Int(i64),
    /// A decimal literal, kept as it is written (`-1.5`).
    Float(String),
    Bool(bool),
}

/// A literal with its position.
pub type Lit = Spanned<LitKind>;

/// One `name=value` argument of a filter, a function or a macro call.
#[derive(Debug, PartialEq)]
pub struct Kwarg {
    pub name: String,
    pub value: Expr,
}

/// A filter node `| round(method="ceil")`
#[derive(Debug, PartialEq)]
pub struct Filter {
    pub name: String,
    pub params: Vec<Kwarg>,
}

/// An identifier `user.name`, with the filters applied to it, in source order
#[derive(Debug, PartialEq)]
pub struct Ident {
    pub name: String,
    pub filters: Vec<Filter>,
}

/// An arithmetic operation `lhs + rhs`
#[derive(Debug, PartialEq)]
pub struct MathExpr {
    pub lhs: Box<Expr>,
    pub rhs: Box<Expr>,
    pub operator: MathOperator,
}

/// A comparison or a logic operation `lhs >= rhs`, `lhs and rhs`
#[derive(Debug, PartialEq)]
pub struct LogicExpr {
    pub lhs: Box<Expr>,
    pub rhs: Box<Expr>,
    pub operator: LogicOperator,
}

/// A test node `if my_var is odd`
#[derive(Debug, PartialEq)]
pub struct Test {
    /// Which expression is evaluated
    pub expr: Box<Expr>,
    /// Name of the test
    pub name: String,
    /// Any optional param given to the test
    pub params: Vec<Expr>,
}

/// A negated expression `not admin`
#[derive(Debug, PartialEq)]
pub struct NotExpr {
    pub expr: Box<Expr>,
}

/// A call of a global function `range(end=5)`
#[derive(Debug, PartialEq)]
pub struct FunctionCall {
    pub name: String,
    pub params: Vec<Kwarg>,
}

/// A call of a macro of an imported file `macros::input(name="q")`
#[derive(Debug, PartialEq)]
pub struct MacroCall {
    pub namespace: String,
    pub name: String,
    pub params: Vec<Kwarg>,
}

/// All the kinds of expressions
#[derive(Debug, PartialEq)]
pub enum ExprKind {
    Ident(Ident),
    Lit(Lit),
    Math(MathExpr),
    Logic(LogicExpr),
    Test(Test),
    Not(NotExpr),
    FunctionCall(FunctionCall),
    MacroCall(MacroCall),
}

/// An expression with its position.
pub type Expr = Spanned<ExprKind>;

/// A filter section node `{% filter name(param="value") %} content {% endfilter %}`
#[derive(Debug, PartialEq)]
pub struct FilterSection {
    pub name: String,
    pub params: Vec<Kwarg>,
    pub body: Vec<Node>,
}

/// Set a variable in the context `{% set val = "hey" %}`
#[derive(Debug, PartialEq)]
pub struct SetVariable {
    pub ident: String,
    pub value: Expr,
}

/// One `if` or `elif` of a conditional, with what it guards.
#[derive(Debug, PartialEq)]
pub struct Branch {
    pub condition: Expr,
    pub body: Vec<Node>,
}

/// A conditional `{% if a %} .. {% elif b %} .. {% else %} .. {% endif %}`
#[derive(Debug, PartialEq)]
pub struct If {
    /// The `if` and each `elif`, in source order.
    pub branches: Vec<Branch>,
    /// The body of the `else`, if there is one.
    pub otherwise: Option<Vec<Node>>,
}

/// A loop `{% for value in container %}` or `{% for key, value in container %}`
#[derive(Debug, PartialEq)]
pub struct Forloop {
    pub key: Option<String>,
    pub value: String,
    pub container: Expr,
    pub body: Vec<Node>,
}

/// A block `{% block name %} .. {% endblock %}` that a child template can override
#[derive(Debug, PartialEq)]
pub struct Block {
    pub name: String,
    pub body: Vec<Node>,
}

/// A parameter of a macro, with its default value if it has one.
#[derive(Debug, PartialEq)]
pub struct MacroParam {
    pub name: String,
    pub default: Option<Expr>,
}

/// A macro `{% macro name(params) %} .. {% endmacro %}`
#[derive(Debug, PartialEq)]
pub struct MacroDefinition {
    pub name: String,
    pub params: Vec<MacroParam>,
    pub body: Vec<Node>,
}

/// All Tera nodes that can be encountered
#[derive(Debug, PartialEq)]
pub enum Node {
    /// A call to `{{ super() }}` in a block
    Super,
    /// Some actual text
    Text(String),
    /// The text between `{% raw %}` and `{% endraw %}`
    Raw(String),
    /// The `{% extends "blabla.html" %}` node, contains the template name
    Extends(String),
    /// The `{% include "blabla.html" %}` node, contains the template name
    Include(String),
    /// The full template AST
    Template(Vec<Node>),
    /// The `{{ expression }}` node
    VariableBlock(Expr),
    /// The `{% set val = expression %}` node
    SetVariable(SetVariable),
    /// The `{% if %}` node with its branches
    If(If),
    /// The `{% for %}` node
    For(Forloop),
    /// The `{% block name %}` node
    Block(Block),
    /// The `{% macro name(params) %}` node
    MacroDefinition(MacroDefinition),
    /// The `{% import "macros.html" as macros %}` node: file name and namespace
    ImportMacro(String, String),
    /// The `{% filter name %}` node
    FilterSection(FilterSection),
}

/// The model of a `LitKind`: strings are sequences of characters.
pub enum LitKindView {
    String(Seq<char>),
    Int(i64),
    Float(Seq<char>),
    Bool(bool),
}

/// The model of a `Lit`.
pub type LitView = Spanned<LitKindView>;

/// The model of a `Kwarg`.
pub struct KwargView {
    pub name: Seq<char>,
    pub value: ExprView,
}

/// The model of a `Filter`.
pub struct FilterView {
    pub name: Seq<char>,
    pub params: Seq<KwargView>,
}

/// The model of an `ExprKind`: strings are sequences of characters, vectors
/// are sequences.
#[allow(inconsistent_fields)]
pub enum ExprKindView {
    Ident { name: Seq<char>, filters: Seq<FilterView> },
    Lit(LitView),
    Math { lhs: Box<ExprView>, rhs: Box<ExprView>, operator: MathOperator },
    Logic { lhs: Box<ExprView>, rhs: Box<ExprView>, operator: LogicOperator },
    Test { expr: Box<ExprView>, name: Seq<char>, params: Seq<ExprView> },
    Not(Box<ExprView>),
    FunctionCall { name: Seq<char>, params: Seq<KwargView> },
    MacroCall { namespace: Seq<char>, name: Seq<char>, params: Seq<KwargView> },
}

/// The model of an `Expr`.
pub type ExprView = Spanned<ExprKindView>;

/// The model of a `Branch`.
pub struct BranchView {
    pub condition: ExprView,
    pub body: Seq<NodeView>,
}

/// The model of a `MacroParam`.
pub struct MacroParamView {
    pub name: Seq<char>,
    pub default: Option<ExprView>,
}

/// The model of a `Node`.
#[allow(inconsistent_fields)]
pub enum NodeView {
    Super,
    Text(Seq<char>),
    Raw(Seq<char>),
    Extends(Seq<char>),
    Include(Seq<char>),
    Template(Seq<NodeView>),
    VariableBlock(ExprView),
    SetVariable { ident: Seq<char>, value: ExprView },
    If { branches: Seq<BranchView>, otherwise: Option<Seq<NodeView>> },
    For { key: Option<Seq<char>>, value: Seq<char>, container: ExprView, body: Seq<NodeView> },
    Block { name: Seq<char>, body: Seq<NodeView> },
    MacroDefinition { name: Seq<char>, params: Seq<MacroParamView>, body: Seq<NodeView> },
    ImportMacro(Seq<char>, Seq<char>),
    FilterSection { name: Seq<char>, params: Seq<KwargView>, body: Seq<NodeView> },
}

/// The model of a kind of literal.
pub open spec fn lit_kind_view(k: LitKind) -> LitKindView {
    match k {
        LitKind::String(s) => LitKindView::String(s@),
        LitKind::Int(i) => LitKindView::Int(i),
        LitKind::Float(s) => LitKindView::Float(s@),
        LitKind::Bool(b) => LitKindView::Bool(b),
    }
}

/// The model of a literal.
pub open spec fn lit_view(l: Lit) -> LitView {
    Spanned { node: lit_kind_view(l.node), span: l.span }
}

/// The model of an expression.
pub open spec fn expr_view(e: Expr) -> ExprView
    decreases e,
{
    Spanned { node: expr_kind_view(e.node), span: e.span }
}

/// The model of a kind of expression.
pub open spec fn expr_kind_view(k: ExprKind) -> ExprKindView
    decreases k,
{
    match k {
        ExprKind::Ident(id) => ExprKindView::Ident {
            name: id.name@,
            filters: filters_view(id.filters),
        },
        ExprKind::Lit(l) => ExprKindView::Lit(lit_view(l)),
        ExprKind::Math(m) => ExprKindView::Math {
            lhs: Box::new(expr_view(*m.lhs)),
            rhs: Box::new(expr_view(*m.rhs)),
            operator: m.operator,
        },
        ExprKind::Logic(m) => ExprKindView::Logic {
            lhs: Box::new(expr_view(*m.lhs)),
            rhs: Box::new(expr_view(*m.rhs)),
            operator: m.operator,
        },
        ExprKind::Test(t) => ExprKindView::Test {
            expr: Box::new(expr_view(*t.expr)),
            name: t.name@,
            params: exprs_view(t.params),
        },
        ExprKind::Not(n) => ExprKindView::Not(Box::new(expr_view(*n.expr))),
        ExprKind::FunctionCall(c) => ExprKindView::FunctionCall {
            name: c.name@,
            params: kwargs_view(c.params),
        },
        ExprKind::MacroCall(c) => ExprKindView::MacroCall {
            namespace: c.namespace@,
            name: c.name@,
            params: kwargs_view(c.params),
        },
    }
}

/// The models of the expressions, in their order.
pub open spec fn exprs_view(es: Vec<Expr>) -> Seq<ExprView>
    decreases es,
{
    Seq::new(
        es.len() as nat,
        |i: int|
            if 0 <= i < es.len() {
                expr_view(es[i])
            } else {
                arbitrary()
            },
    )
}

/// The model of an argument.
pub open spec fn kwarg_view(k: Kwarg) -> KwargView
    decreases k,
{
    KwargView { name: k.name@, value: expr_view(k.value) }
}

/// The models of the arguments, in their order.
pub open spec fn kwargs_view(ks: Vec<Kwarg>) -> Seq<KwargView>
    decreases ks,
{
    Seq::new(
        ks.len() as nat,
        |i: int|
            if 0 <= i < ks.len() {
                kwarg_view(ks[i])
            } else {
                arbitrary()
            },
    )
}

/// The model of a filter.
pub open spec fn filter_view(f: Filter) -> FilterView
    decreases f,
{
    FilterView { name: f.name@, params: kwargs_view(f.params) }
}

/// The models of the filters, in their order.
pub open spec fn filters_view(fs: Vec<Filter>) -> Seq<FilterView>
    decreases fs,
{
    Seq::new(
        fs.len() as nat,
        |i: int|
            if 0 <= i < fs.len() {
                filter_view(fs[i])
            } else {
                arbitrary()
            },
    )
}

/// The model of a parameter of a macro.
pub open spec fn macro_param_view(p: MacroParam) -> MacroParamView {
    MacroParamView {
        name: p.name@,
        default: match p.default {
            Some(e) => Some(expr_view(e)),
            None => None,
        },
    }
}

/// The models of the parameters, in their order.
pub open spec fn macro_params_view(ps: Vec<MacroParam>) -> Seq<MacroParamView> {
    Seq::new(ps.len() as nat, |i: int| macro_param_view(ps[i]))
}

/// The characters of the string, where there is one.
pub open spec fn option_text_view(s: Option<String>) -> Option<Seq<char>> {
    match s {
        Some(s) => Some(s@),
        None => None,
    }
}

/// The model of a node.
pub open spec fn node_view(n: Node) -> NodeView
    decreases n,
{
    match n {
        Node::Super => NodeView::Super,
        Node::Text(s) => NodeView::Text(s@),
        Node::Raw(s) => NodeView::Raw(s@),
        Node::Extends(s) => NodeView::Extends(s@),
        Node::Include(s) => NodeView::Include(s@),
        Node::Template(ns) => NodeView::Template(nodes_view(ns)),
        Node::VariableBlock(e) => NodeView::VariableBlock(expr_view(e)),
        Node::SetVariable(s) => NodeView::SetVariable {
            ident: s.ident@,
            value: expr_view(s.value),
        },
        Node::If(i) => NodeView::If {
            branches: branches_view(i.branches),
            otherwise: match i.otherwise {
                Some(ns) => Some(nodes_view(ns)),
                None => None,
            },
        },
        Node::For(f) => NodeView::For {
            key: option_text_view(f.key),
            value: f.value@,
            container: expr_view(f.container),
            body: nodes_view(f.body),
        },
        Node::Block(b) => NodeView::Block { name: b.name@, body: nodes_view(b.body) },
        Node::MacroDefinition(m) => NodeView::MacroDefinition {
            name: m.name@,
            params: macro_params_view(m.params),
            body: nodes_view(m.body),
        },
        Node::ImportMacro(file, namespace) => NodeView::ImportMacro(file@, namespace@),
        Node::FilterSection(f) => NodeView::FilterSection {
            name: f.name@,
            params: kwargs_view(f.params),
            body: nodes_view(f.body),
        },
    }
}

/// The models of the nodes, in their order.
pub open spec fn nodes_view(ns: Vec<Node>) -> Seq<NodeView>
    decreases ns,
{
    Seq::new(
        ns.len() as nat,
        |i: int|
            if 0 <= i < ns.len() {
                node_view(ns[i])
            } else {
                arbitrary()
            },
    )
}

/// The model of a branch of a conditional.
pub open spec fn branch_view(b: Branch) -> BranchView
    decreases b,
{
    BranchView { condition: expr_view(b.condition), body: nodes_view(b.body) }
}

/// The models of the branches, in their order.
pub open spec fn branches_view(bs: Vec<Branch>) -> Seq<BranchView>
    decreases bs,
{
    Seq::new(
        bs.len() as nat,
        |i: int|
            if 0 <= i < bs.len() {
                branch_view(bs[i])
            } else {
                arbitrary()
            },
    )
}

/// The expression is well formed, for a text of `len` bytes. Every span in
/// it is a range of the text. A literal has the span of its expression;
/// `lhs op rhs` spans from the start of `lhs` to the end of `rhs`, a test
/// from the start of its subject, a negation to the end of its operand. No
/// call and no filter has two arguments of the same name.
pub open spec fn expr_wf(e: ExprView, len: int) -> bool
    decreases e,
{
    &&& e.span.within(len)
    &&& match e.node {
        ExprKindView::Ident { name, filters } => filters_wf(filters, len),
        ExprKindView::Lit(l) => l.span == e.span,
        ExprKindView::Math { lhs, rhs, operator } => {
            &&& expr_wf(*lhs, len)
            &&& expr_wf(*rhs, len)
            &&& e.span.start == lhs.span.start
            &&& e.span.end == rhs.span.end
        },
        ExprKindView::Logic { lhs, rhs, operator } => {
            &&& expr_wf(*lhs, len)
            &&& expr_wf(*rhs, len)
            &&& e.span.start == lhs.span.start
            &&& e.span.end == rhs.span.end
        },
        ExprKindView::Test { expr, name, params } => {
            &&& expr_wf(*expr, len)
            &&& exprs_wf(params, len)
            &&& e.span.start == expr.span.start
        },
        ExprKindView::Not(operand) => {
            &&& expr_wf(*operand, len)
            &&& e.span.end == operand.span.end
        },
        ExprKindView::FunctionCall { name, params } => kwargs_wf(params, len),
        ExprKindView::MacroCall { namespace, name, params } => kwargs_wf(params, len),
    }
}

/// Each of the expressions is well formed.
pub open spec fn exprs_wf(es: Seq<ExprView>, len: int) -> bool
    decreases es,
{
    forall|i: int| 0 <= i < es.len() ==> expr_wf(#[trigger] es[i], len)
}

/// No two arguments have the same name.
pub open spec fn unique_names(ks: Seq<KwargView>) -> bool {
    forall|i: int, j: int| 0 <= i < j < ks.len() ==> ks[i].name != ks[j].name
}

/// The arguments are a mapping: no name occurs twice. Their values are well
/// formed.
pub open spec fn kwargs_wf(ks: Seq<KwargView>, len: int) -> bool
    decreases ks,
{
    &&& unique_names(ks)
    &&& forall|i: int| 0 <= i < ks.len() ==> expr_wf((#[trigger] ks[i]).value, len)
}

/// The arguments of each of the filters are well formed.
pub open spec fn filters_wf(fs: Seq<FilterView>, len: int) -> bool
    decreases fs,
{
    forall|i: int| 0 <= i < fs.len() ==> kwargs_wf((#[trigger] fs[i]).params, len)
}

/// The default value of each of the parameters is well formed.
pub open spec fn macro_params_wf(ps: Seq<MacroParamView>, len: int) -> bool {
    forall|i: int|
        0 <= i < ps.len() ==> match (#[trigger] ps[i]).default {
            Some(e) => expr_wf(e, len),
            None => true,
        }
}

/// The node is well formed as a node of a template, for a text of `len`
/// bytes: every expression in it is well formed, and no template stands
/// inside it.
pub open spec fn node_wf(n: NodeView, len: int) -> bool
    decreases n,
{
    match n {
        NodeView::Template(nodes) => false,
        NodeView::VariableBlock(e) => expr_wf(e, len),
        NodeView::SetVariable { ident, value } => expr_wf(value, len),
        NodeView::If { branches, otherwise } => {
            &&& branches_wf(branches, len)
            &&& match otherwise {
                Some(nodes) => nodes_wf(nodes, len),
                None => true,
            }
        },
        NodeView::For { key, value, container, body } => {
            &&& expr_wf(container, len)
            &&& nodes_wf(body, len)
        },
        NodeView::Block { name, body } => nodes_wf(body, len),
        NodeView::MacroDefinition { name, params, body } => {
            &&& macro_params_wf(params, len)
            &&& nodes_wf(body, len)
        },
        NodeView::FilterSection { name, params, body } => {
            &&& kwargs_wf(params, len)
            &&& nodes_wf(body, len)
        },
        _ => true,
    }
}

/// The node is a whole template, the one root of its tree, and each node
/// under it is well formed.
pub open spec fn template_wf(n: NodeView, len: int) -> bool {
    match n {
        NodeView::Template(nodes) => nodes_wf(nodes, len),
        _ => false,
    }
}

/// Each of the nodes is well formed.
pub open spec fn nodes_wf(ns: Seq<NodeView>, len: int) -> bool
    decreases ns,
{
    forall|i: int| 0 <= i < ns.len() ==> node_wf(#[trigger] ns[i], len)
}

/// The condition and the body of each of the branches are well formed.
pub open spec fn branches_wf(bs: Seq<BranchView>, len: int) -> bool
    decreases bs,
{
    forall|i: int|
        0 <= i < bs.len() ==> expr_wf((#[trigger] bs[i]).condition, len) && nodes_wf(
            bs[i].body,
            len,
        )
}

impl View for Spanned<ExprKind> {
    type V = ExprView;

    open spec fn view(&self) -> ExprView {
        expr_view(*self)
    }
}

impl View for Node {
    type V = NodeView;

    open spec fn view(&self) -> NodeView {
        node_view(*self)
    }
}

} // verus!
