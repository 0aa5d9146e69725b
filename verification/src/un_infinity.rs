//! `1 / 0` becomes `Infinity`, and `-1 / 0` becomes `-Infinity`.
//!
//! The rule keeps away from places where `Infinity` may mean something else. These bindings
//! of the name count:
//!
//! - a declaration of a variable, a function or a class among the items of the module, and
//!   an import; not a declaration that is exported;
//! - a parameter of a function or of an arrow function, and a declaration among the
//!   statements of the body of a function; not those of a constructor, and not a declaration
//!   in the body of an arrow function;
//! - the name of a function expression or of a class expression;
//! - a declaration with `let` or `const`, of a function or of a class among the statements
//!   of a block; not one with `var`, there or in a block further in;
//! - the parameter of a `catch`.
//!
//! Besides, a `with` statement or a direct call of `eval` keeps the rule away from the
//! module, function or arrow function in whose own scope it runs.
use vstd::prelude::*;

use crate::expr_utils::{global, is_global, is_one, is_zero, one, text_is, zero};
use crate::rewrite::{rewrite_list, rewritten_list, Rewriting, Rule};
use crate::syntax::{
    lemma_trees, lemma_trees_push, opt_ident, opt_tree, trees, BinaryOp, Ident, IdentView, Mark,
    Module, ModuleView, Node, Span, SyntaxContext, Tree, UnaryOp, VarDeclKind,
};
use crate::walk::{children_of, lemma_children_smaller, seen};

verus! {

broadcast use {lemma_trees, lemma_trees_push};

/// The rule that recovers `Infinity`.
pub struct UnInfinity {
    /// The mark of identifiers that are bound nowhere in the file.
    pub unresolved_mark: Mark,
    /// Whether the rule runs in surroundings that bind `Infinity`.
    pub blocked: bool,
}

/// The pattern `t` binds the name `Infinity`.
pub open spec fn pattern_binds(t: Tree) -> bool
    decreases t,
{
    match t {
        Tree::PatIdent { ident, .. } => ident.sym == "Infinity"@,
        Tree::PatShorthand { ident, .. } => ident.sym == "Infinity"@,
        Tree::PatRest { arg, .. } => pattern_binds(*arg),
        Tree::PatAssign { left, .. } => pattern_binds(*left),
        Tree::PatProp { value, .. } => pattern_binds(*value),
        Tree::PatArray { elems, .. } => some_pattern_binds(elems),
        Tree::PatObject { props, .. } => some_pattern_binds(props),
        _ => false,
    }
}

/// One of the patterns binds the name `Infinity`.
pub open spec fn some_pattern_binds(list: Seq<Tree>) -> bool
    decreases list,
{
    list.len() > 0 && (some_pattern_binds(list.drop_last()) || pattern_binds(list.last()))
}

/// Whether the pattern binds the name `Infinity`.
pub fn pat_binds_infinity(pat: &Node) -> (yes: bool)
    ensures
        yes <==> pattern_binds(pat@),
    decreases pat,
{
    match pat {
        Node::PatIdent { ident, .. } => text_is(&ident.sym, "Infinity"),
        Node::PatShorthand { ident, .. } => text_is(&ident.sym, "Infinity"),
        Node::PatRest { arg, .. } => pat_binds_infinity(arg),
        Node::PatAssign { left, .. } => pat_binds_infinity(left),
        Node::PatProp { value, .. } => pat_binds_infinity(value),
        Node::PatArray { elems, .. } => some_pat_binds_infinity(elems),
        Node::PatObject { props, .. } => some_pat_binds_infinity(props),
        _ => false,
    }
}

fn some_pat_binds_infinity(list: &Vec<Node>) -> (yes: bool)
    ensures
        yes <==> some_pattern_binds(trees(list@)),
    decreases list,
{
    let ghost all = trees(list@);
    let mut yes = false;
    let mut i: usize = 0;
    while i < list.len()
        invariant
            i <= list.len(),
            all == trees(list@),
            yes <==> some_pattern_binds(all.take(i as int)),
        decreases list.len() - i,
    {
        let here = pat_binds_infinity(&list[i]);
        yes = yes || here;
        i += 1;
        assert(all.take(i as int).drop_last() =~= all.take(i - 1));
    }
    assert(all.take(i as int) =~= all);
    yes
}

/// The declarator `t` binds the name `Infinity`.
pub open spec fn declarator_binds(t: Tree) -> bool {
    t matches Tree::Declarator { name, .. } && pattern_binds(*name)
}

/// One of the declarators binds the name `Infinity`.
pub open spec fn some_declarator_binds(decls: Seq<Tree>) -> bool {
    exists|i: int| 0 <= i < decls.len() && #[trigger] declarator_binds(decls[i])
}

fn declarator_binds_infinity(node: &Node) -> (yes: bool)
    ensures
        yes <==> declarator_binds(node@),
{
    match node {
        Node::Declarator { name, .. } => pat_binds_infinity(name),
        _ => false,
    }
}

fn some_declarator_binds_infinity(decls: &Vec<Node>) -> (yes: bool)
    ensures
        yes <==> some_declarator_binds(trees(decls@)),
{
    let ghost all = trees(decls@);
    let mut i: usize = 0;
    while i < decls.len()
        invariant
            i <= decls.len(),
            all == trees(decls@),
            forall|k: int| 0 <= k < i ==> !#[trigger] declarator_binds(all[k]),
        decreases decls.len() - i,
    {
        assert(all[i as int] == decls@[i as int]@);
        if declarator_binds_infinity(&decls[i]) {
            return true;
        }
        i += 1;
    }
    false
}

/// The statement `t` declares the name `Infinity` in the scope around it; with `lexical`,
/// declarations with `var`, which reach beyond a block, do not count.
pub open spec fn stmt_binds(t: Tree, lexical: bool) -> bool {
    match t {
        Tree::VarDecl { kind, decls, .. } => !(lexical && kind == VarDeclKind::Var)
            && some_declarator_binds(decls),
        Tree::FnDecl { ident, .. } => ident.sym == "Infinity"@,
        Tree::ClassDecl { ident, .. } => ident.sym == "Infinity"@,
        _ => false,
    }
}

/// One of the statements declares the name `Infinity`.
pub open spec fn some_stmt_binds(stmts: Seq<Tree>, lexical: bool) -> bool {
    exists|i: int| 0 <= i < stmts.len() && #[trigger] stmt_binds(stmts[i], lexical)
}

/// Whether the statement declares the name `Infinity` in the scope around it.
pub fn stmt_binds_infinity(stmt: &Node, lexical: bool) -> (yes: bool)
    ensures
        yes <==> stmt_binds(stmt@, lexical),
{
    match stmt {
        Node::VarDecl { kind, decls, .. } => {
            !(lexical && *kind == VarDeclKind::Var) && some_declarator_binds_infinity(decls)
        },
        Node::FnDecl { ident, .. } => text_is(&ident.sym, "Infinity"),
        Node::ClassDecl { ident, .. } => text_is(&ident.sym, "Infinity"),
        _ => false,
    }
}

/// Whether one of the statements declares the name `Infinity`.
pub fn body_binds_infinity(stmts: &Vec<Node>, lexical: bool) -> (yes: bool)
    ensures
        yes <==> some_stmt_binds(trees(stmts@), lexical),
{
    let ghost all = trees(stmts@);
    let mut i: usize = 0;
    while i < stmts.len()
        invariant
            i <= stmts.len(),
            all == trees(stmts@),
            forall|k: int| 0 <= k < i ==> !#[trigger] stmt_binds(all[k], lexical),
        decreases stmts.len() - i,
    {
        assert(all[i as int] == stmts@[i as int]@);
        if stmt_binds_infinity(&stmts[i], lexical) {
            return true;
        }
        i += 1;
    }
    false
}

/// `t` brings in the name `Infinity` from another module.
pub open spec fn specifier_binds(t: Tree) -> bool {
    t matches Tree::Specifier { local, .. } && local.sym == "Infinity"@
}

/// One of the names that an import brings in is `Infinity`.
pub open spec fn some_specifier_binds(specifiers: Seq<Tree>) -> bool {
    exists|i: int| 0 <= i < specifiers.len() && #[trigger] specifier_binds(specifiers[i])
}

/// The import `t` brings in the name `Infinity`.
pub open spec fn import_binds(t: Tree) -> bool {
    t matches Tree::Import { specifiers, .. } && some_specifier_binds(specifiers)
}

/// The module binds the name `Infinity` in its own scope, by a statement or an import
/// among its items.
pub open spec fn module_binds(m: ModuleView) -> bool {
    exists|i: int| 0 <= i < m.body.len() && #[trigger] item_binds(m.body[i])
}

/// The module item `t` binds the name `Infinity`.
pub open spec fn item_binds(t: Tree) -> bool {
    stmt_binds(t, false) || import_binds(t)
}

fn specifier_binds_infinity(node: &Node) -> (yes: bool)
    ensures
        yes <==> specifier_binds(node@),
{
    match node {
        Node::Specifier { local, .. } => text_is(&local.sym, "Infinity"),
        _ => false,
    }
}

fn some_specifier_binds_infinity(specifiers: &Vec<Node>) -> (yes: bool)
    ensures
        yes <==> some_specifier_binds(trees(specifiers@)),
{
    let ghost all = trees(specifiers@);
    let mut i: usize = 0;
    while i < specifiers.len()
        invariant
            i <= specifiers.len(),
            all == trees(specifiers@),
            forall|k: int| 0 <= k < i ==> !#[trigger] specifier_binds(all[k]),
        decreases specifiers.len() - i,
    {
        assert(all[i as int] == specifiers@[i as int]@);
        if specifier_binds_infinity(&specifiers[i]) {
            return true;
        }
        i += 1;
    }
    false
}

fn item_binds_infinity(item: &Node) -> (yes: bool)
    ensures
        yes <==> item_binds(item@),
{
    match item {
        Node::Import { specifiers, .. } => some_specifier_binds_infinity(specifiers),
        _ => stmt_binds_infinity(item, false),
    }
}

/// Whether the module binds the name `Infinity` in its own scope.
pub fn module_binds_infinity(module: &Module) -> (yes: bool)
    ensures
        yes <==> module_binds(module@),
{
    let ghost all = module@.body;
    let mut i: usize = 0;
    while i < module.body.len()
        invariant
            i <= module.body.len(),
            all == module@.body,
            forall|k: int| 0 <= k < i ==> !#[trigger] item_binds(all[k]),
        decreases module.body.len() - i,
    {
        assert(all[i as int] == module.body@[i as int]@);
        if item_binds_infinity(&module.body[i]) {
            return true;
        }
        i += 1;
    }
    false
}

/// `t` runs code in its own scope that may bind any name: it is a `with` statement, or
/// calls `eval` directly, outside of the functions and class expressions in it.
pub open spec fn dynamic(t: Tree, mark: Mark) -> bool
    decreases t, children_of(t).len() + 1,
{
    match t {
        Tree::With { .. } => true,
        Tree::Function { .. } => false,
        Tree::Arrow { .. } => false,
        Tree::FnExpr { .. } => false,
        Tree::ClassExpr { .. } => false,
        Tree::Call { callee, .. } => global(*callee, "eval"@, mark) || part_dynamic(
            t,
            children_of(t).len(),
            mark,
        ),
        _ => part_dynamic(t, children_of(t).len(), mark),
    }
}

/// One of the first `n` parts of `t` is dynamic.
pub open spec fn part_dynamic(t: Tree, n: nat, mark: Mark) -> bool
    decreases t, n,
{
    0 < n <= children_of(t).len() && (part_dynamic(t, (n - 1) as nat, mark) || {
        proof {
            lemma_children_smaller(t);
        }
        dynamic(children_of(t)[n - 1], mark)
    })
}

/// One piece of the list is dynamic.
pub open spec fn some_dynamic(list: Seq<Tree>, mark: Mark) -> bool {
    exists|i: int| 0 <= i < list.len() && #[trigger] dynamic(list[i], mark)
}

/// Whether `node` runs code in its own scope that may bind any name.
pub fn has_dynamic_scope(node: &Node, unresolved_mark: Mark) -> (yes: bool)
    ensures
        yes <==> dynamic(node@, unresolved_mark),
    decreases node@, children_of(node@).len() + 1,
{
    match node {
        Node::With { .. } => true,
        Node::Function { .. } => false,
        Node::Arrow { .. } => false,
        Node::FnExpr { .. } => false,
        Node::ClassExpr { .. } => false,
        Node::Call { callee, .. } => {
            is_global(callee, "eval", unresolved_mark) || part_has_dynamic_scope(
                node,
                unresolved_mark,
            )
        },
        _ => part_has_dynamic_scope(node, unresolved_mark),
    }
}

fn part_has_dynamic_scope(node: &Node, unresolved_mark: Mark) -> (yes: bool)
    ensures
        yes <==> part_dynamic(node@, children_of(node@).len(), unresolved_mark),
    decreases node@, children_of(node@).len(),
{
    let ghost t = node@;
    let parts = node.children();
    let mut yes = false;
    let mut i: usize = 0;
    while i < parts.len()
        invariant
            i <= parts.len(),
            t == node@,
            seen(parts@) == children_of(t),
            yes <==> part_dynamic(t, i as nat, unresolved_mark),
        decreases parts.len() - i,
    {
        proof {
            lemma_children_smaller(t);
            assert(seen(parts@)[i as int] == parts@[i as int]@);
        }
        let here = has_dynamic_scope(parts[i], unresolved_mark);
        yes = yes || here;
        i += 1;
    }
    yes
}

fn some_has_dynamic_scope(list: &Vec<Node>, unresolved_mark: Mark) -> (yes: bool)
    ensures
        yes <==> some_dynamic(trees(list@), unresolved_mark),
{
    let ghost all = trees(list@);
    let mut i: usize = 0;
    while i < list.len()
        invariant
            i <= list.len(),
            all == trees(list@),
            forall|k: int| 0 <= k < i ==> !#[trigger] dynamic(all[k], unresolved_mark),
        decreases list.len() - i,
    {
        assert(all[i as int] == list@[i as int]@);
        if has_dynamic_scope(&list[i], unresolved_mark) {
            return true;
        }
        i += 1;
    }
    false
}

/// The parameter `t` binds the name `Infinity`.
pub open spec fn param_binds(t: Tree) -> bool {
    t matches Tree::Param { pat, .. } && pattern_binds(*pat)
}

/// One of the parameters binds the name `Infinity`.
pub open spec fn some_param_binds(params: Seq<Tree>) -> bool {
    exists|i: int| 0 <= i < params.len() && #[trigger] param_binds(params[i])
}

/// The body `t` of a function declares the name `Infinity`, or may bind any name.
pub open spec fn body_blocks(t: Tree, mark: Mark) -> bool {
    t matches Tree::FunctionBody { stmts, .. } && (some_stmt_binds(stmts, false) || dynamic(
        t,
        mark,
    ))
}

/// The name is `Infinity`.
pub open spec fn named_infinity(name: Option<IdentView>) -> bool {
    name is Some && name->0.sym == "Infinity"@
}

/// `t` binds the name `Infinity` for what is inside it, in one of the ways that count, or
/// runs code there that may bind any name.
pub open spec fn blocks(t: Tree, mark: Mark) -> bool {
    match t {
        Tree::Function { params, body, .. } => some_param_binds(params) || (body is Some
            && body_blocks(*body->0, mark)),
        Tree::Arrow { params, body, .. } => some_pattern_binds(params) || dynamic(*body, mark),
        Tree::FnExpr { name, .. } => named_infinity(name),
        Tree::ClassExpr { name, .. } => named_infinity(name),
        Tree::Block { stmts, .. } => some_stmt_binds(stmts, true),
        Tree::Catch { param, .. } => param is Some && pattern_binds(*param->0),
        _ => false,
    }
}

fn param_binds_infinity(param: &Node) -> (yes: bool)
    ensures
        yes <==> param_binds(param@),
{
    match param {
        Node::Param { pat, .. } => pat_binds_infinity(pat),
        _ => false,
    }
}

fn some_param_binds_infinity(params: &Vec<Node>) -> (yes: bool)
    ensures
        yes <==> some_param_binds(trees(params@)),
{
    let ghost all = trees(params@);
    let mut i: usize = 0;
    while i < params.len()
        invariant
            i <= params.len(),
            all == trees(params@),
            forall|k: int| 0 <= k < i ==> !#[trigger] param_binds(all[k]),
        decreases params.len() - i,
    {
        assert(all[i as int] == params@[i as int]@);
        if param_binds_infinity(&params[i]) {
            return true;
        }
        i += 1;
    }
    false
}

fn body_blocks_infinity(body: &Node, unresolved_mark: Mark) -> (yes: bool)
    ensures
        yes <==> body_blocks(body@, unresolved_mark),
{
    match body {
        Node::FunctionBody { stmts, .. } => {
            body_binds_infinity(stmts, false) || has_dynamic_scope(body, unresolved_mark)
        },
        _ => false,
    }
}

fn is_named_infinity(name: &Option<Ident>) -> (yes: bool)
    ensures
        yes <==> named_infinity(opt_ident(*name)),
{
    match name {
        Some(name) => text_is(&name.sym, "Infinity"),
        None => false,
    }
}

/// Whether `node` binds the name `Infinity` for what is inside it, in one of the ways that
/// count, or runs code there that may bind any name.
pub fn blocks_infinity(node: &Node, unresolved_mark: Mark) -> (yes: bool)
    ensures
        yes <==> blocks(node@, unresolved_mark),
{
    match node {
        Node::Function { params, body, .. } => {
            let body_blocks = match body {
                Some(inner) => {
                    assert(opt_tree(*body) == Some(Box::new((**inner)@)));
                    body_blocks_infinity(inner, unresolved_mark)
                },
                None => {
                    assert(opt_tree(*body) is None);
                    false
                },
            };
            body_blocks || some_param_binds_infinity(params)
        },
        Node::Arrow { params, body, .. } => {
            some_pat_binds_infinity(params) || has_dynamic_scope(body, unresolved_mark)
        },
        Node::FnExpr { name, .. } => is_named_infinity(name),
        Node::ClassExpr { name, .. } => is_named_infinity(name),
        Node::Block { stmts, .. } => body_binds_infinity(stmts, true),
        Node::Catch { param, .. } => {
            match param {
                Some(inner) => {
                    assert(opt_tree(*param) == Some(Box::new((**inner)@)));
                    pat_binds_infinity(inner)
                },
                None => {
                    assert(opt_tree(*param) is None);
                    false
                },
            }
        },
        _ => false,
    }
}

/// The global `Infinity`, at the position `span`.
pub open spec fn infinity(span: Span, mark: Mark) -> Tree {
    Tree::Ident {
        ident: IdentView {
            sym: "Infinity"@,
            ctxt: SyntaxContext::of_mark(mark),
            span,
            optional: false,
        },
    }
}

/// `t` is `-1`.
pub open spec fn minus_one(t: Tree) -> bool {
    t matches Tree::Unary { op, arg, .. } && op == UnaryOp::Minus && one(*arg)
}

/// What becomes of `t` where nothing binds the name `Infinity`.
pub open spec fn infinite(t: Tree, mark: Mark) -> Tree {
    match t {
        Tree::Bin { span, op, left, right } => if op == BinaryOp::Div && zero(*right) && one(
            *left,
        ) {
            infinity(span, mark)
        } else if op == BinaryOp::Div && zero(*right) && minus_one(*left) {
            Tree::Unary { span, op: UnaryOp::Minus, arg: Box::new(infinity(span, mark)) }
        } else {
            t
        },
        _ => t,
    }
}

fn is_minus_one(node: &Node) -> (yes: bool)
    ensures
        yes <==> minus_one(node@),
{
    match node {
        Node::Unary { op, arg, .. } => *op == UnaryOp::Minus && is_one(arg),
        _ => false,
    }
}

fn make_infinity(span: Span, unresolved_mark: Mark) -> (node: Node)
    ensures
        node@ == infinity(span, unresolved_mark),
{
    Node::Ident {
        ident: Ident {
            sym: "Infinity".to_owned(),
            ctxt: SyntaxContext::of_mark(unresolved_mark),
            span,
            optional: false,
        },
    }
}

/// Rewrites `node` where nothing binds the name `Infinity`.
pub fn recover_infinity(node: Node, unresolved_mark: Mark) -> (out: Node)
    ensures
        out@ == infinite(node@, unresolved_mark),
{
    match node {
        Node::Bin { span, op, left, right } => {
            if op != BinaryOp::Div || !is_zero(&right) {
                return Node::Bin { span, op, left, right };
            }
            if is_one(&left) {
                return make_infinity(span, unresolved_mark);
            }
            if is_minus_one(&left) {
                let arg = make_infinity(span, unresolved_mark);
                return Node::Unary { span, op: UnaryOp::Minus, arg: Box::new(arg) };
            }
            Node::Bin { span, op, left, right }
        },
        _ => node,
    }
}

impl Rewriting for UnInfinity {
    /// The state tells whether the name `Infinity` may mean something else than the global.
    open spec fn entered(&self, state: bool, t: Tree) -> bool {
        state || blocks(t, self.unresolved_mark)
    }

    open spec fn entered_with(&self, state: bool) -> bool {
        state
    }

    open spec fn left(&self, state: bool, t: Tree) -> Tree {
        if state {
            t
        } else {
            infinite(t, self.unresolved_mark)
        }
    }
}

impl Rule for UnInfinity {
    type Facts = UnInfinity;

    open spec fn facts(&self) -> UnInfinity {
        *self
    }

    fn enter(&self, state: bool, node: &Node) -> (inner: bool) {
        state || blocks_infinity(node, self.unresolved_mark)
    }

    fn enter_with(&self, state: bool) -> (inner: bool) {
        state
    }

    fn leave(&self, state: bool, node: Node) -> (out: Node) {
        if state {
            node
        } else {
            recover_infinity(node, self.unresolved_mark)
        }
    }
}

/// The module binds the name `Infinity` in its own scope, or may bind any name there.
pub open spec fn module_blocks(m: ModuleView, mark: Mark) -> bool {
    module_binds(m) || some_dynamic(m.body, mark)
}

/// What the rule makes of the module `m`.
pub open spec fn infinite_module(m: ModuleView, rule: UnInfinity) -> ModuleView {
    ModuleView {
        span: m.span,
        body: rewritten_list(
            rule,
            rule.blocked || module_blocks(m, rule.unresolved_mark),
            m.body,
        ),
    }
}

impl UnInfinity {
    /// The rule that takes identifiers with `unresolved_mark` for globals.
    pub fn new(unresolved_mark: Mark) -> (rule: UnInfinity)
        ensures
            rule == (UnInfinity { unresolved_mark, blocked: false }),
    {
        UnInfinity { unresolved_mark, blocked: false }
    }

    /// Rewrites the module.
    pub fn visit_mut_module(&mut self, module: &mut Module)
        ensures
            *final(self) == *old(self),
            final(module)@ == infinite_module(old(module)@, *old(self)),
    {
        let blocked = self.blocked || module_binds_infinity(module) || some_has_dynamic_scope(
            &module.body,
            self.unresolved_mark,
        );
        let mut body: Vec<Node> = Vec::new();
        std::mem::swap(&mut module.body, &mut body);
        module.body = rewrite_list(self, blocked, body);
    }
}

} // verus!
