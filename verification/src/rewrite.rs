//! The traversal that the rules share.
//!
//! A rule rewrites syntax from the inside out: the parts of a piece of syntax first, and
//! then the piece itself. On the way in, it keeps one bit of state, which stands for the
//! surroundings of the syntax (a shadowed name, a `with` statement).
use vstd::prelude::*;

use crate::syntax::{lemma_trees, lemma_trees_push, opt_tree, trees, Node, Tree};

verus! {

broadcast use {lemma_trees, lemma_trees_push};

/// What a rewrite rule does, as a function of the syntax alone.
pub trait Rewriting: Sized {
    /// The state inside `t`, which itself stands in the given state.
    spec fn entered(&self, state: bool, t: Tree) -> bool;

    /// The state in the body of a `with` statement.
    spec fn entered_with(&self, state: bool) -> bool;

    /// What becomes of `t`, whose parts are rewritten already.
    spec fn left(&self, state: bool, t: Tree) -> Tree;
}

/// A rewrite rule.
pub trait Rule: Sized {
    /// What the rule goes by.
    type Facts: Rewriting;

    /// What the rule goes by.
    spec fn facts(&self) -> Self::Facts;

    /// The state inside `node`, which itself stands in the given state.
    fn enter(&self, state: bool, node: &Node) -> (inner: bool)
        ensures
            inner == self.facts().entered(state, node@),
    ;

    /// The state in the body of a `with` statement.
    fn enter_with(&self, state: bool) -> (inner: bool)
        ensures
            inner == self.facts().entered_with(state),
    ;

    /// Rewrites `node`, whose parts are rewritten already.
    fn leave(&self, state: bool, node: Node) -> (out: Node)
        ensures
            out@ == self.facts().left(state, node@),
    ;
}

/// What `rule` makes of `t` in the given state.
pub open spec fn rewritten<R: Rewriting>(rule: R, state: bool, t: Tree) -> Tree
    decreases t, 1int,
{
    rule.left(state, rewritten_parts(rule, rule.entered(state, t), t))
}

/// What `rule` makes of a list of syntax in the given state.
pub open spec fn rewritten_list<R: Rewriting>(rule: R, state: bool, list: Seq<Tree>) -> Seq<Tree>
    decreases list, 0int,
{
    if list.len() == 0 {
        Seq::empty()
    } else {
        rewritten_list(rule, state, list.drop_last()).push(rewritten(rule, state, list.last()))
    }
}

/// What `rule` makes of a part that may be missing in the given state.
pub open spec fn rewritten_opt<R: Rewriting>(
    rule: R,
    state: bool,
    part: Option<Box<Tree>>,
) -> Option<Box<Tree>>
    decreases part, 0int,
{
    match part {
        Some(part) => Some(Box::new(rewritten(rule, state, *part))),
        None => None,
    }
}

/// `t` with its parts rewritten, where the state inside `t` is the given one.
pub open spec fn rewritten_parts<R: Rewriting>(rule: R, state: bool, t: Tree) -> Tree
    decreases t, 0int,
{
    match t {
        Tree::Array { span, elems } => Tree::Array {
            span,
            elems: rewritten_list(rule, state, elems),
        },
        Tree::Arg { spread, expr } => Tree::Arg {
            spread,
            expr: Box::new(rewritten(rule, state, *expr)),
        },
        Tree::Call { span, ctxt, callee, args, types } => Tree::Call {
            span,
            ctxt,
            callee: Box::new(rewritten(rule, state, *callee)),
            args: rewritten_list(rule, state, args),
            types: rewritten_list(rule, state, types),
        },
        Tree::Member { span, obj, prop } => Tree::Member {
            span,
            obj: Box::new(rewritten(rule, state, *obj)),
            prop: Box::new(rewritten(rule, state, *prop)),
        },
        Tree::Computed { span, expr } => Tree::Computed {
            span,
            expr: Box::new(rewritten(rule, state, *expr)),
        },
        Tree::SuperProp { meta, prop } => Tree::SuperProp {
            meta,
            prop: Box::new(rewritten(rule, state, *prop)),
        },
        Tree::OptChain { span, optional, base } => Tree::OptChain {
            span,
            optional,
            base: Box::new(rewritten(rule, state, *base)),
        },
        Tree::Assign { span, op, left, right } => Tree::Assign {
            span,
            op,
            left: Box::new(rewritten(rule, state, *left)),
            right: Box::new(rewritten(rule, state, *right)),
        },
        Tree::Update { meta, arg } => Tree::Update {
            meta,
            arg: Box::new(rewritten(rule, state, *arg)),
        },
        Tree::Unary { span, op, arg } => Tree::Unary {
            span,
            op,
            arg: Box::new(rewritten(rule, state, *arg)),
        },
        Tree::Bin { span, op, left, right } => Tree::Bin {
            span,
            op,
            left: Box::new(rewritten(rule, state, *left)),
            right: Box::new(rewritten(rule, state, *right)),
        },
        Tree::Paren { span, expr } => Tree::Paren {
            span,
            expr: Box::new(rewritten(rule, state, *expr)),
        },
        Tree::Typed { kind, span, expr, types } => Tree::Typed {
            kind,
            span,
            expr: Box::new(rewritten(rule, state, *expr)),
            types: rewritten_list(rule, state, types),
        },
        Tree::FnExpr { name, function } => Tree::FnExpr {
            name,
            function: Box::new(rewritten(rule, state, *function)),
        },
        Tree::ClassExpr { name, class } => Tree::ClassExpr {
            name,
            class: Box::new(rewritten(rule, state, *class)),
        },
        Tree::Arrow { meta, params, body, types } => Tree::Arrow {
            meta,
            params: rewritten_list(rule, state, params),
            body: Box::new(rewritten(rule, state, *body)),
            types: rewritten_list(rule, state, types),
        },
        Tree::Function { meta, this_param, params, decorators, body, types } => Tree::Function {
            meta,
            this_param: rewritten_list(rule, state, this_param),
            params: rewritten_list(rule, state, params),
            decorators: rewritten_list(rule, state, decorators),
            body: rewritten_opt(rule, state, body),
            types: rewritten_list(rule, state, types),
        },
        Tree::Param { meta, decorators, pat } => Tree::Param {
            meta,
            decorators: rewritten_list(rule, state, decorators),
            pat: Box::new(rewritten(rule, state, *pat)),
        },
        Tree::FunctionBody { span, stmts } => Tree::FunctionBody {
            span,
            stmts: rewritten_list(rule, state, stmts),
        },
        Tree::Constructor { meta, key, params, body } => Tree::Constructor {
            meta,
            key: Box::new(rewritten(rule, state, *key)),
            params: rewritten_list(rule, state, params),
            body: rewritten_opt(rule, state, body),
        },
        Tree::Field { meta, key, value, types, decorators } => Tree::Field {
            meta,
            key: Box::new(rewritten(rule, state, *key)),
            value: rewritten_opt(rule, state, value),
            types: rewritten_list(rule, state, types),
            decorators: rewritten_list(rule, state, decorators),
        },
        Tree::StaticBlock { span, body } => Tree::StaticBlock {
            span,
            body: Box::new(rewritten(rule, state, *body)),
        },
        Tree::Accessor { meta, key, function } => Tree::Accessor {
            meta,
            key: Box::new(rewritten(rule, state, *key)),
            function: Box::new(rewritten(rule, state, *function)),
        },
        Tree::PatIdent { ident, types } => Tree::PatIdent {
            ident,
            types: rewritten_list(rule, state, types),
        },
        Tree::PatArray { meta, elems, types } => Tree::PatArray {
            meta,
            elems: rewritten_list(rule, state, elems),
            types: rewritten_list(rule, state, types),
        },
        Tree::PatObject { meta, props, types } => Tree::PatObject {
            meta,
            props: rewritten_list(rule, state, props),
            types: rewritten_list(rule, state, types),
        },
        Tree::PatAssign { span, left, right } => Tree::PatAssign {
            span,
            left: Box::new(rewritten(rule, state, *left)),
            right: Box::new(rewritten(rule, state, *right)),
        },
        Tree::PatRest { meta, arg, types } => Tree::PatRest {
            meta,
            arg: Box::new(rewritten(rule, state, *arg)),
            types: rewritten_list(rule, state, types),
        },
        Tree::PatProp { key, value } => Tree::PatProp {
            key: Box::new(rewritten(rule, state, *key)),
            value: Box::new(rewritten(rule, state, *value)),
        },
        Tree::PatShorthand { span, ident, types, value } => Tree::PatShorthand {
            span,
            ident,
            types: rewritten_list(rule, state, types),
            value: rewritten_opt(rule, state, value),
        },
        Tree::ExprStmt { span, expr } => Tree::ExprStmt {
            span,
            expr: Box::new(rewritten(rule, state, *expr)),
        },
        Tree::VarDecl { meta, kind, decls } => Tree::VarDecl {
            meta,
            kind,
            decls: rewritten_list(rule, state, decls),
        },
        Tree::Declarator { meta, name, init } => Tree::Declarator {
            meta,
            name: Box::new(rewritten(rule, state, *name)),
            init: rewritten_opt(rule, state, init),
        },
        Tree::FnDecl { meta, ident, function } => Tree::FnDecl {
            meta,
            ident,
            function: Box::new(rewritten(rule, state, *function)),
        },
        Tree::ClassDecl { meta, ident, class } => Tree::ClassDecl {
            meta,
            ident,
            class: Box::new(rewritten(rule, state, *class)),
        },
        Tree::Block { meta, stmts } => Tree::Block {
            meta,
            stmts: rewritten_list(rule, state, stmts),
        },
        Tree::SwitchCase { span, test, cons } => Tree::SwitchCase {
            span,
            test: rewritten_opt(rule, state, test),
            cons: rewritten_list(rule, state, cons),
        },
        Tree::With { span, obj, body } => Tree::With {
            span,
            obj: Box::new(rewritten(rule, state, *obj)),
            body: Box::new(rewritten(rule, rule.entered_with(state), *body)),
        },
        Tree::ForEach { meta, left, right, body } => Tree::ForEach {
            meta,
            left: Box::new(rewritten(rule, state, *left)),
            right: Box::new(rewritten(rule, state, *right)),
            body: Box::new(rewritten(rule, state, *body)),
        },
        Tree::Catch { span, param, body } => Tree::Catch {
            span,
            param: rewritten_opt(rule, state, param),
            body: Box::new(rewritten(rule, state, *body)),
        },
        Tree::Import { meta, specifiers, rest } => Tree::Import {
            meta,
            specifiers: rewritten_list(rule, state, specifiers),
            rest: rewritten_list(rule, state, rest),
        },
        Tree::Specifier { meta, kind, local, rest } => Tree::Specifier {
            meta,
            kind,
            local,
            rest: rewritten_list(rule, state, rest),
        },
        Tree::Other { meta, children } => Tree::Other {
            meta,
            children: rewritten_list(rule, state, children),
        },
        _ => t,
    }
}

/// A list is rewritten one by one.
pub broadcast proof fn lemma_rewritten_list<R: Rewriting>(rule: R, state: bool, list: Seq<Tree>)
    ensures
        (#[trigger] rewritten_list(rule, state, list)).len() == list.len(),
        forall|i: int|
            0 <= i < list.len() ==> #[trigger] rewritten_list(rule, state, list)[i] == rewritten(
                rule,
                state,
                list[i],
            ),
    decreases list.len(),
{
    if list.len() > 0 {
        lemma_rewritten_list(rule, state, list.drop_last());
    }
}

/// Applies `rule` to `node` in the given state.
pub fn rewrite<R: Rule>(rule: &R, state: bool, node: Node) -> (out: Node)
    ensures
        out@ == rewritten(rule.facts(), state, node@),
    decreases node, 1int, 0int,
{
    let inner = rule.enter(state, &node);
    let parts = rewrite_parts(rule, inner, node);
    rule.leave(state, parts)
}

fn rewrite_opt<R: Rule>(rule: &R, state: bool, part: Option<Box<Node>>) -> (out: Option<Box<Node>>)
    ensures
        opt_tree(out) == rewritten_opt(rule.facts(), state, opt_tree(part)),
    decreases part, 0int, 0int,
{
    match part {
        Some(part) => Some(Box::new(rewrite(rule, state, *part))),
        None => None,
    }
}

/// Applies `rule` to the nodes of `list` in the given state.
pub fn rewrite_list<R: Rule>(rule: &R, state: bool, list: Vec<Node>) -> (out: Vec<Node>)
    ensures
        trees(out@) == rewritten_list(rule.facts(), state, trees(list@)),
    decreases list, 0int, 0int,
{
    let ghost whole = list@;
    let mut rest = list;
    let mut reversed: Vec<Node> = Vec::new();
    while rest.len() > 0
        invariant
            whole == list@,
            rest.len() + reversed.len() == whole.len(),
            rest@ == whole.take(rest.len() as int),
            forall|k: int|
                0 <= k < reversed.len() ==> (#[trigger] reversed@[k])@ == rewritten(
                    rule.facts(),
                    state,
                    whole[whole.len() - 1 - k]@,
                ),
        decreases rest.len(),
    {
        let node = rest.pop();
        match node {
            Some(node) => {
                assert(node == whole[rest.len() as int]);
                let out = rewrite(rule, state, node);
                reversed.push(out);
            },
            None => {},
        }
    }
    let mut out: Vec<Node> = Vec::new();
    while reversed.len() > 0
        invariant
            out.len() + reversed.len() == whole.len(),
            forall|k: int|
                0 <= k < reversed.len() ==> (#[trigger] reversed@[k])@ == rewritten(
                    rule.facts(),
                    state,
                    whole[whole.len() - 1 - k]@,
                ),
            forall|k: int|
                0 <= k < out.len() ==> (#[trigger] out@[k])@ == rewritten(
                    rule.facts(),
                    state,
                    whole[k]@,
                ),
        decreases reversed.len(),
    {
        let node = reversed.pop();
        match node {
            Some(node) => {
                out.push(node);
            },
            None => {},
        }
    }
    proof {
        lemma_rewritten_list(rule.facts(), state, trees(whole));
    }
    assert(trees(out@) =~= rewritten_list(rule.facts(), state, trees(whole)));
    out
}


fn rewrite_parts<R: Rule>(rule: &R, state: bool, node: Node) -> (out: Node)
    ensures
        out@ == rewritten_parts(rule.facts(), state, node@),
    decreases node, 0int, 1int,
{
    match node {
        Node::Array { .. }
        | Node::Arg { .. }
        | Node::Call { .. }
        | Node::Member { .. }
        | Node::Computed { .. } => rewrite_reference(rule, state, node),
        Node::SuperProp { .. }
        | Node::OptChain { .. }
        | Node::Assign { .. }
        | Node::Update { .. }
        | Node::Unary { .. }
        | Node::Bin { .. }
        | Node::Paren { .. }
        | Node::Typed { .. }
        | Node::FnExpr { .. }
        | Node::ClassExpr { .. }
        | Node::Arrow { .. } => rewrite_operation(rule, state, node),
        Node::Function { .. }
        | Node::Param { .. }
        | Node::FunctionBody { .. }
        | Node::Constructor { .. }
        | Node::Field { .. }
        | Node::StaticBlock { .. }
        | Node::Accessor { .. } => rewrite_function(rule, state, node),
        Node::PatIdent { .. }
        | Node::PatArray { .. }
        | Node::PatObject { .. }
        | Node::PatAssign { .. }
        | Node::PatRest { .. }
        | Node::PatProp { .. }
        | Node::PatShorthand { .. } => rewrite_pattern(rule, state, node),
        Node::ExprStmt { .. }
        | Node::VarDecl { .. }
        | Node::Declarator { .. }
        | Node::FnDecl { .. }
        | Node::ClassDecl { .. }
        | Node::Block { .. }
        | Node::SwitchCase { .. }
        | Node::With { .. }
        | Node::ForEach { .. }
        | Node::Catch { .. } => rewrite_statement(rule, state, node),
        Node::Import { .. }
        | Node::Specifier { .. }
        | Node::Other { .. } => rewrite_item(rule, state, node),
        _ => node,
    }
}

fn rewrite_reference<R: Rule>(rule: &R, state: bool, node: Node) -> (out: Node)
    requires
        node is Array || node is Arg || node is Call || node is Member || node is Computed,
    ensures
        out@ == rewritten_parts(rule.facts(), state, node@),
    decreases node, 0int, 0int,
{
    match node {
        Node::Array { span, elems } => Node::Array {
            span,
            elems: rewrite_list(rule, state, elems),
        },
        Node::Arg { spread, expr } => Node::Arg {
            spread,
            expr: Box::new(rewrite(rule, state, *expr)),
        },
        Node::Call { span, ctxt, callee, args, types } => Node::Call {
            span,
            ctxt,
            callee: Box::new(rewrite(rule, state, *callee)),
            args: rewrite_list(rule, state, args),
            types: rewrite_list(rule, state, types),
        },
        Node::Member { span, obj, prop } => Node::Member {
            span,
            obj: Box::new(rewrite(rule, state, *obj)),
            prop: Box::new(rewrite(rule, state, *prop)),
        },
        Node::Computed { span, expr } => Node::Computed {
            span,
            expr: Box::new(rewrite(rule, state, *expr)),
        },
        _ => node,
    }
}

fn rewrite_operation<R: Rule>(rule: &R, state: bool, node: Node) -> (out: Node)
    requires
        node is SuperProp || node is OptChain || node is Assign || node is Update || node is Unary
            || node is Bin || node is Paren || node is Typed || node is FnExpr
            || node is ClassExpr || node is Arrow,
    ensures
        out@ == rewritten_parts(rule.facts(), state, node@),
    decreases node, 0int, 0int,
{
    match node {
        Node::SuperProp { meta, prop } => Node::SuperProp {
            meta,
            prop: Box::new(rewrite(rule, state, *prop)),
        },
        Node::OptChain { span, optional, base } => Node::OptChain {
            span,
            optional,
            base: Box::new(rewrite(rule, state, *base)),
        },
        Node::Assign { span, op, left, right } => Node::Assign {
            span,
            op,
            left: Box::new(rewrite(rule, state, *left)),
            right: Box::new(rewrite(rule, state, *right)),
        },
        Node::Update { meta, arg } => Node::Update {
            meta,
            arg: Box::new(rewrite(rule, state, *arg)),
        },
        Node::Unary { span, op, arg } => Node::Unary {
            span,
            op,
            arg: Box::new(rewrite(rule, state, *arg)),
        },
        Node::Bin { span, op, left, right } => Node::Bin {
            span,
            op,
            left: Box::new(rewrite(rule, state, *left)),
            right: Box::new(rewrite(rule, state, *right)),
        },
        Node::Paren { span, expr } => Node::Paren {
            span,
            expr: Box::new(rewrite(rule, state, *expr)),
        },
        Node::Typed { kind, span, expr, types } => Node::Typed {
            kind,
            span,
            expr: Box::new(rewrite(rule, state, *expr)),
            types: rewrite_list(rule, state, types),
        },
        Node::FnExpr { name, function } => Node::FnExpr {
            name,
            function: Box::new(rewrite(rule, state, *function)),
        },
        Node::ClassExpr { name, class } => Node::ClassExpr {
            name,
            class: Box::new(rewrite(rule, state, *class)),
        },
        Node::Arrow { meta, params, body, types } => Node::Arrow {
            meta,
            params: rewrite_list(rule, state, params),
            body: Box::new(rewrite(rule, state, *body)),
            types: rewrite_list(rule, state, types),
        },
        _ => node,
    }
}

fn rewrite_function<R: Rule>(rule: &R, state: bool, node: Node) -> (out: Node)
    requires
        node is Function || node is Param || node is FunctionBody || node is Constructor
            || node is Field || node is StaticBlock || node is Accessor,
    ensures
        out@ == rewritten_parts(rule.facts(), state, node@),
    decreases node, 0int, 0int,
{
    match node {
        Node::Function { meta, this_param, params, decorators, body, types } => Node::Function {
            meta,
            this_param: rewrite_list(rule, state, this_param),
            params: rewrite_list(rule, state, params),
            decorators: rewrite_list(rule, state, decorators),
            body: rewrite_opt(rule, state, body),
            types: rewrite_list(rule, state, types),
        },
        Node::Param { meta, decorators, pat } => Node::Param {
            meta,
            decorators: rewrite_list(rule, state, decorators),
            pat: Box::new(rewrite(rule, state, *pat)),
        },
        Node::FunctionBody { span, stmts } => Node::FunctionBody {
            span,
            stmts: rewrite_list(rule, state, stmts),
        },
        Node::Constructor { meta, key, params, body } => Node::Constructor {
            meta,
            key: Box::new(rewrite(rule, state, *key)),
            params: rewrite_list(rule, state, params),
            body: rewrite_opt(rule, state, body),
        },
        Node::Field { meta, key, value, types, decorators } => Node::Field {
            meta,
            key: Box::new(rewrite(rule, state, *key)),
            value: rewrite_opt(rule, state, value),
            types: rewrite_list(rule, state, types),
            decorators: rewrite_list(rule, state, decorators),
        },
        Node::StaticBlock { span, body } => Node::StaticBlock {
            span,
            body: Box::new(rewrite(rule, state, *body)),
        },
        Node::Accessor { meta, key, function } => Node::Accessor {
            meta,
            key: Box::new(rewrite(rule, state, *key)),
            function: Box::new(rewrite(rule, state, *function)),
        },
        _ => node,
    }
}

fn rewrite_pattern<R: Rule>(rule: &R, state: bool, node: Node) -> (out: Node)
    requires
        node is PatIdent || node is PatArray || node is PatObject || node is PatAssign
            || node is PatRest || node is PatProp || node is PatShorthand,
    ensures
        out@ == rewritten_parts(rule.facts(), state, node@),
    decreases node, 0int, 0int,
{
    match node {
        Node::PatIdent { ident, types } => Node::PatIdent {
            ident,
            types: rewrite_list(rule, state, types),
        },
        Node::PatArray { meta, elems, types } => Node::PatArray {
            meta,
            elems: rewrite_list(rule, state, elems),
            types: rewrite_list(rule, state, types),
        },
        Node::PatObject { meta, props, types } => Node::PatObject {
            meta,
            props: rewrite_list(rule, state, props),
            types: rewrite_list(rule, state, types),
        },
        Node::PatAssign { span, left, right } => Node::PatAssign {
            span,
            left: Box::new(rewrite(rule, state, *left)),
            right: Box::new(rewrite(rule, state, *right)),
        },
        Node::PatRest { meta, arg, types } => Node::PatRest {
            meta,
            arg: Box::new(rewrite(rule, state, *arg)),
            types: rewrite_list(rule, state, types),
        },
        Node::PatProp { key, value } => Node::PatProp {
            key: Box::new(rewrite(rule, state, *key)),
            value: Box::new(rewrite(rule, state, *value)),
        },
        Node::PatShorthand { span, ident, types, value } => Node::PatShorthand {
            span,
            ident,
            types: rewrite_list(rule, state, types),
            value: rewrite_opt(rule, state, value),
        },
        _ => node,
    }
}

fn rewrite_statement<R: Rule>(rule: &R, state: bool, node: Node) -> (out: Node)
    requires
        node is ExprStmt || node is VarDecl || node is Declarator || node is FnDecl
            || node is ClassDecl || node is Block || node is SwitchCase || node is With
            || node is ForEach || node is Catch,
    ensures
        out@ == rewritten_parts(rule.facts(), state, node@),
    decreases node, 0int, 0int,
{
    match node {
        Node::ExprStmt { span, expr } => Node::ExprStmt {
            span,
            expr: Box::new(rewrite(rule, state, *expr)),
        },
        Node::VarDecl { meta, kind, decls } => Node::VarDecl {
            meta,
            kind,
            decls: rewrite_list(rule, state, decls),
        },
        Node::Declarator { meta, name, init } => Node::Declarator {
            meta,
            name: Box::new(rewrite(rule, state, *name)),
            init: rewrite_opt(rule, state, init),
        },
        Node::FnDecl { meta, ident, function } => Node::FnDecl {
            meta,
            ident,
            function: Box::new(rewrite(rule, state, *function)),
        },
        Node::ClassDecl { meta, ident, class } => Node::ClassDecl {
            meta,
            ident,
            class: Box::new(rewrite(rule, state, *class)),
        },
        Node::Block { meta, stmts } => Node::Block {
            meta,
            stmts: rewrite_list(rule, state, stmts),
        },
        Node::SwitchCase { span, test, cons } => Node::SwitchCase {
            span,
            test: rewrite_opt(rule, state, test),
            cons: rewrite_list(rule, state, cons),
        },
        Node::With { span, obj, body } => Node::With {
            span,
            obj: Box::new(rewrite(rule, state, *obj)),
            body: Box::new(rewrite(rule, rule.enter_with(state), *body)),
        },
        Node::ForEach { meta, left, right, body } => Node::ForEach {
            meta,
            left: Box::new(rewrite(rule, state, *left)),
            right: Box::new(rewrite(rule, state, *right)),
            body: Box::new(rewrite(rule, state, *body)),
        },
        Node::Catch { span, param, body } => Node::Catch {
            span,
            param: rewrite_opt(rule, state, param),
            body: Box::new(rewrite(rule, state, *body)),
        },
        _ => node,
    }
}

fn rewrite_item<R: Rule>(rule: &R, state: bool, node: Node) -> (out: Node)
    requires
        node is Import || node is Specifier || node is Other,
    ensures
        out@ == rewritten_parts(rule.facts(), state, node@),
    decreases node, 0int, 0int,
{
    match node {
        Node::Import { meta, specifiers, rest } => Node::Import {
            meta,
            specifiers: rewrite_list(rule, state, specifiers),
            rest: rewrite_list(rule, state, rest),
        },
        Node::Specifier { meta, kind, local, rest } => Node::Specifier {
            meta,
            kind,
            local,
            rest: rewrite_list(rule, state, rest),
        },
        Node::Other { meta, children } => Node::Other {
            meta,
            children: rewrite_list(rule, state, children),
        },
        _ => node,
    }
}

} // verus!
