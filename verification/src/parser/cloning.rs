//! Copies of syntax trees. A copy is a tree of its own with the same model:
//! `Clone` on every type of the tree gives one.

use super::ast::{
    branch_view, branches_view, expr_kind_view, expr_view, exprs_view, filter_view, filters_view,
    kwarg_view, kwargs_view, lit_view, macro_param_view, macro_params_view, node_view, nodes_view,
    option_text_view, Block, Branch, Expr, ExprKind, ExprView, Filter, FilterSection, Forloop,
    FunctionCall, Ident, If, Kwarg, Lit, LitKind, LogicExpr, MacroCall, MacroDefinition, MacroParam,
    MathExpr, Node, NodeView, NotExpr, SetVariable, Spanned, Test,
};
use vstd::prelude::*;

verus! {

/// The model of the expression, where there is one.
pub open spec fn option_expr_view(e: Option<Expr>) -> Option<ExprView> {
    match e {
        Some(e) => Some(e@),
        None => None,
    }
}

/// The models of the nodes, where there are any.
pub open spec fn option_nodes_view(ns: Option<Vec<Node>>) -> Option<Seq<NodeView>> {
    match ns {
        Some(ns) => Some(nodes_view(ns)),
        None => None,
    }
}

/// A copy of the string, where there is one.
pub fn clone_option_text(s: &Option<String>) -> (r: Option<String>)
    ensures
        option_text_view(r) == option_text_view(*s),
{
    match s {
        Some(s) => Some(s.clone()),
        None => None,
    }
}

/// A copy of the literal.
pub fn clone_lit(l: &Lit) -> (r: Lit)
    ensures
        lit_view(r) == lit_view(*l),
{
    Spanned {
        node: match &l.node {
            LitKind::String(s) => LitKind::String(s.clone()),
            LitKind::Int(i) => LitKind::Int(*i),
            LitKind::Float(s) => LitKind::Float(s.clone()),
            LitKind::Bool(b) => LitKind::Bool(*b),
        },
        span: l.span,
    }
}

/// A copy of the expression.
pub fn clone_expr(e: &Expr) -> (r: Expr)
    ensures
        r@ == e@,
    decreases e,
{
    Spanned { node: clone_expr_kind(&e.node), span: e.span }
}

/// A copy of the expression, where there is one.
pub fn clone_option_expr(e: &Option<Expr>) -> (r: Option<Expr>)
    ensures
        option_expr_view(r) == option_expr_view(*e),
    decreases e,
{
    match e {
        Some(e) => Some(clone_expr(e)),
        None => None,
    }
}

/// A copy of the kind of expression.
pub fn clone_expr_kind(k: &ExprKind) -> (r: ExprKind)
    ensures
        expr_kind_view(r) == expr_kind_view(*k),
    decreases k,
{
    match k {
        ExprKind::Ident(i) => ExprKind::Ident(
            Ident { name: i.name.clone(), filters: clone_filters(&i.filters) },
        ),
        ExprKind::Lit(l) => ExprKind::Lit(clone_lit(l)),
        ExprKind::Math(m) => ExprKind::Math(
            MathExpr {
                lhs: Box::new(clone_expr(&*m.lhs)),
                rhs: Box::new(clone_expr(&*m.rhs)),
                operator: m.operator,
            },
        ),
        ExprKind::Logic(m) => ExprKind::Logic(
            LogicExpr {
                lhs: Box::new(clone_expr(&*m.lhs)),
                rhs: Box::new(clone_expr(&*m.rhs)),
                operator: m.operator,
            },
        ),
        ExprKind::Test(t) => ExprKind::Test(
            Test {
                expr: Box::new(clone_expr(&*t.expr)),
                name: t.name.clone(),
                params: clone_exprs(&t.params),
            },
        ),
        ExprKind::Not(n) => ExprKind::Not(NotExpr { expr: Box::new(clone_expr(&*n.expr)) }),
        ExprKind::FunctionCall(c) => ExprKind::FunctionCall(
            FunctionCall { name: c.name.clone(), params: clone_kwargs(&c.params) },
        ),
        ExprKind::MacroCall(c) => ExprKind::MacroCall(
            MacroCall {
                namespace: c.namespace.clone(),
                name: c.name.clone(),
                params: clone_kwargs(&c.params),
            },
        ),
    }
}

/// Copies of the expressions, in their order.
pub fn clone_exprs(v: &Vec<Expr>) -> (r: Vec<Expr>)
    ensures
        exprs_view(r) == exprs_view(*v),
    decreases v,
{
    let mut r: Vec<Expr> = Vec::new();
    let mut i: usize = 0;
    while i < v.len()
        invariant
            i <= v.len(),
            r.len() == i,
            forall|j: int| 0 <= j < i ==> expr_view(r[j]) == expr_view(v[j]),
        decreases v.len() - i,
    {
        r.push(clone_expr(&v[i]));
        i += 1;
    }
    assert(exprs_view(r) =~= exprs_view(*v));
    r
}

/// Copies of the arguments, in their order.
pub fn clone_kwargs(v: &Vec<Kwarg>) -> (r: Vec<Kwarg>)
    ensures
        kwargs_view(r) == kwargs_view(*v),
    decreases v,
{
    let mut r: Vec<Kwarg> = Vec::new();
    let mut i: usize = 0;
    while i < v.len()
        invariant
            i <= v.len(),
            r.len() == i,
            forall|j: int| 0 <= j < i ==> kwarg_view(r[j]) == kwarg_view(v[j]),
        decreases v.len() - i,
    {
        r.push(Kwarg { name: v[i].name.clone(), value: clone_expr(&v[i].value) });
        i += 1;
    }
    assert(kwargs_view(r) =~= kwargs_view(*v));
    r
}

/// Copies of the filters, in their order.
pub fn clone_filters(v: &Vec<Filter>) -> (r: Vec<Filter>)
    ensures
        filters_view(r) == filters_view(*v),
    decreases v,
{
    let mut r: Vec<Filter> = Vec::new();
    let mut i: usize = 0;
    while i < v.len()
        invariant
            i <= v.len(),
            r.len() == i,
            forall|j: int| 0 <= j < i ==> filter_view(r[j]) == filter_view(v[j]),
        decreases v.len() - i,
    {
        r.push(Filter { name: v[i].name.clone(), params: clone_kwargs(&v[i].params) });
        i += 1;
    }
    assert(filters_view(r) =~= filters_view(*v));
    r
}

/// Copies of the parameters, in their order.
pub fn clone_macro_params(v: &Vec<MacroParam>) -> (r: Vec<MacroParam>)
    ensures
        macro_params_view(r) == macro_params_view(*v),
    decreases v,
{
    let mut r: Vec<MacroParam> = Vec::new();
    let mut i: usize = 0;
    while i < v.len()
        invariant
            i <= v.len(),
            r.len() == i,
            forall|j: int| 0 <= j < i ==> macro_param_view(r[j]) == macro_param_view(v[j]),
        decreases v.len() - i,
    {
        r.push(MacroParam { name: v[i].name.clone(), default: clone_option_expr(&v[i].default) });
        i += 1;
    }
    assert(macro_params_view(r) =~= macro_params_view(*v));
    r
}

/// Copies of the nodes, in their order.
pub fn clone_nodes(v: &Vec<Node>) -> (r: Vec<Node>)
    ensures
        nodes_view(r) == nodes_view(*v),
    decreases v,
{
    let mut r: Vec<Node> = Vec::new();
    let mut i: usize = 0;
    while i < v.len()
        invariant
            i <= v.len(),
            r.len() == i,
            forall|j: int| 0 <= j < i ==> node_view(r[j]) == node_view(v[j]),
        decreases v.len() - i,
    {
        r.push(clone_node(&v[i]));
        i += 1;
    }
    assert(nodes_view(r) =~= nodes_view(*v));
    r
}

/// Copies of the branches, in their order.
pub fn clone_branches(v: &Vec<Branch>) -> (r: Vec<Branch>)
    ensures
        branches_view(r) == branches_view(*v),
    decreases v,
{
    let mut r: Vec<Branch> = Vec::new();
    let mut i: usize = 0;
    while i < v.len()
        invariant
            i <= v.len(),
            r.len() == i,
            forall|j: int| 0 <= j < i ==> branch_view(r[j]) == branch_view(v[j]),
        decreases v.len() - i,
    {
        r.push(Branch { condition: clone_expr(&v[i].condition), body: clone_nodes(&v[i].body) });
        i += 1;
    }
    assert(branches_view(r) =~= branches_view(*v));
    r
}

/// Copies of the nodes, where there are any.
pub fn clone_option_nodes(ns: &Option<Vec<Node>>) -> (r: Option<Vec<Node>>)
    ensures
        option_nodes_view(r) == option_nodes_view(*ns),
    decreases ns,
{
    match ns {
        Some(ns) => Some(clone_nodes(ns)),
        None => None,
    }
}

/// A copy of the node.
pub fn clone_node(n: &Node) -> (r: Node)
    ensures
        r@ == n@,
    decreases n,
{
    match n {
        Node::Super => Node::Super,
        Node::Text(s) => Node::Text(s.clone()),
        Node::Raw(s) => Node::Raw(s.clone()),
        Node::Extends(s) => Node::Extends(s.clone()),
        Node::Include(s) => Node::Include(s.clone()),
        Node::Template(ns) => Node::Template(clone_nodes(ns)),
        Node::VariableBlock(e) => Node::VariableBlock(clone_expr(e)),
        Node::SetVariable(s) => Node::SetVariable(
            SetVariable { ident: s.ident.clone(), value: clone_expr(&s.value) },
        ),
        Node::If(i) => Node::If(
            If {
                branches: clone_branches(&i.branches),
                otherwise: clone_option_nodes(&i.otherwise),
            },
        ),
        Node::For(f) => Node::For(
            Forloop {
                key: clone_option_text(&f.key),
                value: f.value.clone(),
                container: clone_expr(&f.container),
                body: clone_nodes(&f.body),
            },
        ),
        Node::Block(b) => Node::Block(Block { name: b.name.clone(), body: clone_nodes(&b.body) }),
        Node::MacroDefinition(m) => Node::MacroDefinition(
            MacroDefinition {
                name: m.name.clone(),
                params: clone_macro_params(&m.params),
                body: clone_nodes(&m.body),
            },
        ),
        Node::ImportMacro(file, namespace) => Node::ImportMacro(file.clone(), namespace.clone()),
        Node::FilterSection(f) => Node::FilterSection(
            FilterSection {
                name: f.name.clone(),
                params: clone_kwargs(&f.params),
                body: clone_nodes(&f.body),
            },
        ),
    }
}

impl Clone for ExprKind {
    fn clone(&self) -> (r: Self)
        ensures
            expr_kind_view(r) == expr_kind_view(*self),
    {
        clone_expr_kind(self)
    }
}

impl Clone for Node {
    fn clone(&self) -> (r: Self)
        ensures
            r@ == self@,
    {
        clone_node(self)
    }
}

impl Clone for Kwarg {
    fn clone(&self) -> (r: Self)
        ensures
            r.name@ == self.name@,
            r.value@ == self.value@,
    {
        Kwarg { name: self.name.clone(), value: clone_expr(&self.value) }
    }
}

impl Clone for Filter {
    fn clone(&self) -> (r: Self)
        ensures
            r.name@ == self.name@,
            kwargs_view(r.params) == kwargs_view(self.params),
    {
        Filter { name: self.name.clone(), params: clone_kwargs(&self.params) }
    }
}

impl Clone for Ident {
    fn clone(&self) -> (r: Self)
        ensures
            r.name@ == self.name@,
            filters_view(r.filters) == filters_view(self.filters),
    {
        Ident { name: self.name.clone(), filters: clone_filters(&self.filters) }
    }
}

impl Clone for MathExpr {
    fn clone(&self) -> (r: Self)
        ensures
            (*r.lhs)@ == (*self.lhs)@,
            (*r.rhs)@ == (*self.rhs)@,
            r.operator == self.operator,
    {
        MathExpr {
            lhs: Box::new(clone_expr(&*self.lhs)),
            rhs: Box::new(clone_expr(&*self.rhs)),
            operator: self.operator,
        }
    }
}

impl Clone for LogicExpr {
    fn clone(&self) -> (r: Self)
        ensures
            (*r.lhs)@ == (*self.lhs)@,
            (*r.rhs)@ == (*self.rhs)@,
            r.operator == self.operator,
    {
        LogicExpr {
            lhs: Box::new(clone_expr(&*self.lhs)),
            rhs: Box::new(clone_expr(&*self.rhs)),
            operator: self.operator,
        }
    }
}

impl Clone for Test {
    fn clone(&self) -> (r: Self)
        ensures
            (*r.expr)@ == (*self.expr)@,
            r.name@ == self.name@,
            exprs_view(r.params) == exprs_view(self.params),
    {
        Test {
            expr: Box::new(clone_expr(&*self.expr)),
            name: self.name.clone(),
            params: clone_exprs(&self.params),
        }
    }
}

impl Clone for NotExpr {
    fn clone(&self) -> (r: Self)
        ensures
            (*r.expr)@ == (*self.expr)@,
    {
        NotExpr { expr: Box::new(clone_expr(&*self.expr)) }
    }
}

impl Clone for FunctionCall {
    fn clone(&self) -> (r: Self)
        ensures
            r.name@ == self.name@,
            kwargs_view(r.params) == kwargs_view(self.params),
    {
        FunctionCall { name: self.name.clone(), params: clone_kwargs(&self.params) }
    }
}

impl Clone for MacroCall {
    fn clone(&self) -> (r: Self)
        ensures
            r.namespace@ == self.namespace@,
            r.name@ == self.name@,
            kwargs_view(r.params) == kwargs_view(self.params),
    {
        MacroCall {
            namespace: self.namespace.clone(),
            name: self.name.clone(),
            params: clone_kwargs(&self.params),
        }
    }
}

impl Clone for FilterSection {
    fn clone(&self) -> (r: Self)
        ensures
            r.name@ == self.name@,
            kwargs_view(r.params) == kwargs_view(self.params),
            nodes_view(r.body) == nodes_view(self.body),
    {
        FilterSection {
            name: self.name.clone(),
            params: clone_kwargs(&self.params),
            body: clone_nodes(&self.body),
        }
    }
}

impl Clone for SetVariable {
    fn clone(&self) -> (r: Self)
        ensures
            r.ident@ == self.ident@,
            r.value@ == self.value@,
    {
        SetVariable { ident: self.ident.clone(), value: clone_expr(&self.value) }
    }
}

impl Clone for Branch {
    fn clone(&self) -> (r: Self)
        ensures
            r.condition@ == self.condition@,
            nodes_view(r.body) == nodes_view(self.body),
    {
        Branch { condition: clone_expr(&self.condition), body: clone_nodes(&self.body) }
    }
}

impl Clone for If {
    fn clone(&self) -> (r: Self)
        ensures
            branches_view(r.branches) == branches_view(self.branches),
            option_nodes_view(r.otherwise) == option_nodes_view(self.otherwise),
    {
        If {
            branches: clone_branches(&self.branches),
            otherwise: clone_option_nodes(&self.otherwise),
        }
    }
}

impl Clone for Forloop {
    fn clone(&self) -> (r: Self)
        ensures
            option_text_view(r.key) == option_text_view(self.key),
            r.value@ == self.value@,
            r.container@ == self.container@,
            nodes_view(r.body) == nodes_view(self.body),
    {
        Forloop {
            key: clone_option_text(&self.key),
            value: self.value.clone(),
            container: clone_expr(&self.container),
            body: clone_nodes(&self.body),
        }
    }
}

impl Clone for Block {
    fn clone(&self) -> (r: Self)
        ensures
            r.name@ == self.name@,
            nodes_view(r.body) == nodes_view(self.body),
    {
        Block { name: self.name.clone(), body: clone_nodes(&self.body) }
    }
}

impl Clone for MacroParam {
    fn clone(&self) -> (r: Self)
        ensures
            r.name@ == self.name@,
            option_expr_view(r.default) == option_expr_view(self.default),
    {
        MacroParam { name: self.name.clone(), default: clone_option_expr(&self.default) }
    }
}

impl Clone for MacroDefinition {
    fn clone(&self) -> (r: Self)
        ensures
            r.name@ == self.name@,
            macro_params_view(r.params) == macro_params_view(self.params),
            nodes_view(r.body) == nodes_view(self.body),
    {
        MacroDefinition {
            name: self.name.clone(),
            params: clone_macro_params(&self.params),
            body: clone_nodes(&self.body),
        }
    }
}

} // verus!
