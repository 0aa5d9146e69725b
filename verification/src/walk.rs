//! The parts of a piece of syntax, and its source position.
use vstd::prelude::*;

use crate::syntax::{
    lemma_trees, lemma_trees_push, opt_tree, trees, Ident, IdentView, Node, Span, Tree,
};

verus! {

broadcast use {lemma_trees, lemma_trees_push};

/// A part that may be missing, as a list.
pub open spec fn opt_part(part: Option<Box<Tree>>) -> Seq<Tree> {
    match part {
        Some(part) => seq![*part],
        None => seq![],
    }
}

/// The parts of `t`, in the order in which they are visited.
pub open spec fn children_of(t: Tree) -> Seq<Tree> {
    match t {
        Tree::Array { elems, .. } => elems,
        Tree::Arg { expr, .. } => seq![*expr],
        Tree::Call { callee, args, types, .. } => seq![*callee] + args + types,
        Tree::Member { obj, prop, .. } => seq![*obj] + seq![*prop],
        Tree::Computed { expr, .. } => seq![*expr],
        Tree::SuperProp { prop, .. } => seq![*prop],
        Tree::OptChain { base, .. } => seq![*base],
        Tree::Assign { left, right, .. } => seq![*left] + seq![*right],
        Tree::Update { arg, .. } => seq![*arg],
        Tree::Unary { arg, .. } => seq![*arg],
        Tree::Bin { left, right, .. } => seq![*left] + seq![*right],
        Tree::Paren { expr, .. } => seq![*expr],
        Tree::Typed { expr, types, .. } => seq![*expr] + types,
        Tree::FnExpr { function, .. } => seq![*function],
        Tree::ClassExpr { class, .. } => seq![*class],
        Tree::Arrow { params, body, types, .. } => params + seq![*body] + types,
        Tree::Function { this_param, params, decorators, body, types, .. } => {
            this_param + params + decorators + opt_part(body) + types
        },
        Tree::Param { decorators, pat, .. } => decorators + seq![*pat],
        Tree::FunctionBody { stmts, .. } => stmts,
        Tree::Constructor { key, params, body, .. } => seq![*key] + params + opt_part(body),
        Tree::Field { key, value, types, decorators, .. } => {
            seq![*key] + opt_part(value) + types + decorators
        },
        Tree::StaticBlock { body, .. } => seq![*body],
        Tree::Accessor { key, function, .. } => seq![*key] + seq![*function],
        Tree::PatIdent { types, .. } => types,
        Tree::PatArray { elems, types, .. } => elems + types,
        Tree::PatObject { props, types, .. } => props + types,
        Tree::PatAssign { left, right, .. } => seq![*left] + seq![*right],
        Tree::PatRest { arg, types, .. } => seq![*arg] + types,
        Tree::PatProp { key, value } => seq![*key] + seq![*value],
        Tree::PatShorthand { types, value, .. } => types + opt_part(value),
        Tree::ExprStmt { expr, .. } => seq![*expr],
        Tree::VarDecl { decls, .. } => decls,
        Tree::Declarator { name, init, .. } => seq![*name] + opt_part(init),
        Tree::FnDecl { function, .. } => seq![*function],
        Tree::ClassDecl { class, .. } => seq![*class],
        Tree::Block { stmts, .. } => stmts,
        Tree::SwitchCase { test, cons, .. } => opt_part(test) + cons,
        Tree::With { obj, body, .. } => seq![*obj] + seq![*body],
        Tree::ForEach { left, right, body, .. } => seq![*left] + seq![*right] + seq![*body],
        Tree::Catch { param, body, .. } => opt_part(param) + seq![*body],
        Tree::Import { specifiers, rest, .. } => specifiers + rest,
        Tree::Specifier { rest, .. } => rest,
        Tree::Other { children, .. } => children,
        _ => seq![],
    }
}

/// Every part of a piece of syntax is smaller than the whole.
pub proof fn lemma_children_smaller(t: Tree)
    ensures
        forall|i: int|
            0 <= i < children_of(t).len() ==> decreases_to!(t => #[trigger] children_of(t)[i]),
{
}

/// The identifier that stands in `t` itself, not in one of its parts.
pub open spec fn own_ident(t: Tree) -> Option<IdentView> {
    match t {
        Tree::Ident { ident } => Some(ident),
        Tree::PatIdent { ident, .. } => Some(ident),
        Tree::PatShorthand { ident, .. } => Some(ident),
        Tree::FnDecl { ident, .. } => Some(ident),
        Tree::ClassDecl { ident, .. } => Some(ident),
        Tree::Specifier { local, .. } => Some(local),
        Tree::FnExpr { name, .. } => name,
        Tree::ClassExpr { name, .. } => name,
        _ => None,
    }
}

/// The source position of `t`; that of a piece of syntax that has none of its own is
/// that of the part that gives it its extent.
pub open spec fn span_of(t: Tree) -> Span
    decreases t,
{
    match t {
        Tree::Ident { ident } => ident.span,
        Tree::This { span } => span,
        Tree::Num { meta, .. } => meta.span,
        Tree::Null { span } => span,
        Tree::Array { span, .. } => span,
        Tree::Hole => Span::dummy(),
        Tree::Arg { expr, .. } => span_of(*expr),
        Tree::Call { span, .. } => span,
        Tree::Member { span, .. } => span,
        Tree::PropIdent { span, .. } => span,
        Tree::Computed { span, .. } => span,
        Tree::SuperProp { meta, .. } => meta.span,
        Tree::OptChain { span, .. } => span,
        Tree::Assign { span, .. } => span,
        Tree::Update { meta, .. } => meta.span,
        Tree::Unary { span, .. } => span,
        Tree::Bin { span, .. } => span,
        Tree::Paren { span, .. } => span,
        Tree::Typed { span, .. } => span,
        Tree::FnExpr { function, .. } => span_of(*function),
        Tree::ClassExpr { class, .. } => span_of(*class),
        Tree::Arrow { meta, .. } => meta.span,
        Tree::Function { meta, .. } => meta.span,
        Tree::Param { meta, .. } => meta.span,
        Tree::FunctionBody { span, .. } => span,
        Tree::Constructor { meta, .. } => meta.span,
        Tree::Field { meta, .. } => meta.span,
        Tree::StaticBlock { span, .. } => span,
        Tree::Accessor { meta, .. } => meta.span,
        Tree::PatIdent { ident, .. } => ident.span,
        Tree::PatArray { meta, .. } => meta.span,
        Tree::PatObject { meta, .. } => meta.span,
        Tree::PatAssign { span, .. } => span,
        Tree::PatRest { meta, .. } => meta.span,
        Tree::PatProp { value, .. } => span_of(*value),
        Tree::PatShorthand { span, .. } => span,
        Tree::ExprStmt { span, .. } => span,
        Tree::VarDecl { meta, .. } => meta.span,
        Tree::Declarator { meta, .. } => meta.span,
        Tree::FnDecl { meta, .. } => meta.span,
        Tree::ClassDecl { meta, .. } => meta.span,
        Tree::Block { meta, .. } => meta.span,
        Tree::SwitchCase { span, .. } => span,
        Tree::With { span, .. } => span,
        Tree::ForEach { meta, .. } => meta.span,
        Tree::Catch { span, .. } => span,
        Tree::Import { meta, .. } => meta.span,
        Tree::Specifier { meta, .. } => meta.span,
        Tree::Other { meta, .. } => meta.span,
    }
}

/// The values of nodes that are looked at, not owned.
pub open spec fn seen(s: Seq<&Node>) -> Seq<Tree> {
    Seq::new(s.len(), |i: int| s[i]@)
}

fn add_list<'a>(list: &'a Vec<Node>, out: &mut Vec<&'a Node>)
    ensures
        seen(final(out)@) == seen(old(out)@) + trees(list@),
{
    let ghost before = seen(out@);
    let mut i: usize = 0;
    while i < list.len()
        invariant
            i <= list.len(),
            seen(out@) == before + trees(list@).take(i as int),
        decreases list.len() - i,
    {
        let ghost sofar = out@;
        out.push(&list[i]);
        i += 1;
        assert(seen(out@) =~= seen(sofar).push(list@[i - 1]@));
        assert(trees(list@).take(i as int) =~= trees(list@).take(i - 1).push(list@[i - 1]@));
    }
    assert(trees(list@).take(i as int) =~= trees(list@));
}

fn add_opt<'a>(part: &'a Option<Box<Node>>, out: &mut Vec<&'a Node>)
    ensures
        seen(final(out)@) == seen(old(out)@) + opt_part(opt_tree(*part)),
{
    match part {
        Some(part) => add_one(part, out),
        None => {},
    }
    assert(seen(out@) =~= seen(old(out)@) + opt_part(opt_tree(*part)));
}

fn add_one<'a>(part: &'a Node, out: &mut Vec<&'a Node>)
    ensures
        seen(final(out)@) == seen(old(out)@) + seq![part@],
{
    out.push(part);
    assert(seen(out@) =~= seen(old(out)@) + seq![part@]);
}

impl Node {
    /// The parts of this piece of syntax, in the order in which they are visited.
    pub fn children(&self) -> (parts: Vec<&Node>)
        ensures
            seen(parts@) == children_of(self@),
    {
        let mut out: Vec<&Node> = Vec::new();
        match self {
            Node::Array { elems, .. } => {
                add_list(elems, &mut out);
            },
            Node::Arg { expr, .. } => {
                add_one(expr, &mut out);
            },
            Node::Call { callee, args, types, .. } => {
                add_one(callee, &mut out);
                add_list(args, &mut out);
                add_list(types, &mut out);
            },
            Node::Member { obj, prop, .. } => {
                add_one(obj, &mut out);
                add_one(prop, &mut out);
            },
            Node::Computed { expr, .. } => {
                add_one(expr, &mut out);
            },
            Node::SuperProp { prop, .. } => {
                add_one(prop, &mut out);
            },
            Node::OptChain { base, .. } => {
                add_one(base, &mut out);
            },
            Node::Assign { left, right, .. } => {
                add_one(left, &mut out);
                add_one(right, &mut out);
            },
            Node::Update { arg, .. } => {
                add_one(arg, &mut out);
            },
            Node::Unary { arg, .. } => {
                add_one(arg, &mut out);
            },
            Node::Bin { left, right, .. } => {
                add_one(left, &mut out);
                add_one(right, &mut out);
            },
            Node::Paren { expr, .. } => {
                add_one(expr, &mut out);
            },
            Node::Typed { expr, types, .. } => {
                add_one(expr, &mut out);
                add_list(types, &mut out);
            },
            Node::FnExpr { function, .. } => {
                add_one(function, &mut out);
            },
            Node::ClassExpr { class, .. } => {
                add_one(class, &mut out);
            },
            Node::Arrow { params, body, types, .. } => {
                add_list(params, &mut out);
                add_one(body, &mut out);
                add_list(types, &mut out);
            },
            Node::Function { this_param, params, decorators, body, types, .. } => {
                add_list(this_param, &mut out);
                add_list(params, &mut out);
                add_list(decorators, &mut out);
                add_opt(body, &mut out);
                add_list(types, &mut out);
            },
            Node::Param { decorators, pat, .. } => {
                add_list(decorators, &mut out);
                add_one(pat, &mut out);
            },
            Node::FunctionBody { stmts, .. } => {
                add_list(stmts, &mut out);
            },
            Node::Constructor { key, params, body, .. } => {
                add_one(key, &mut out);
                add_list(params, &mut out);
                add_opt(body, &mut out);
            },
            Node::Field { key, value, types, decorators, .. } => {
                add_one(key, &mut out);
                add_opt(value, &mut out);
                add_list(types, &mut out);
                add_list(decorators, &mut out);
            },
            Node::StaticBlock { body, .. } => {
                add_one(body, &mut out);
            },
            Node::Accessor { key, function, .. } => {
                add_one(key, &mut out);
                add_one(function, &mut out);
            },
            Node::PatIdent { types, .. } => {
                add_list(types, &mut out);
            },
            Node::PatArray { elems, types, .. } => {
                add_list(elems, &mut out);
                add_list(types, &mut out);
            },
            Node::PatObject { props, types, .. } => {
                add_list(props, &mut out);
                add_list(types, &mut out);
            },
            Node::PatAssign { left, right, .. } => {
                add_one(left, &mut out);
                add_one(right, &mut out);
            },
            Node::PatRest { arg, types, .. } => {
                add_one(arg, &mut out);
                add_list(types, &mut out);
            },
            Node::PatProp { key, value } => {
                add_one(key, &mut out);
                add_one(value, &mut out);
            },
            Node::PatShorthand { types, value, .. } => {
                add_list(types, &mut out);
                add_opt(value, &mut out);
            },
            Node::ExprStmt { expr, .. } => {
                add_one(expr, &mut out);
            },
            Node::VarDecl { decls, .. } => {
                add_list(decls, &mut out);
            },
            Node::Declarator { name, init, .. } => {
                add_one(name, &mut out);
                add_opt(init, &mut out);
            },
            Node::FnDecl { function, .. } => {
                add_one(function, &mut out);
            },
            Node::ClassDecl { class, .. } => {
                add_one(class, &mut out);
            },
            Node::Block { stmts, .. } => {
                add_list(stmts, &mut out);
            },
            Node::SwitchCase { test, cons, .. } => {
                add_opt(test, &mut out);
                add_list(cons, &mut out);
            },
            Node::With { obj, body, .. } => {
                add_one(obj, &mut out);
                add_one(body, &mut out);
            },
            Node::ForEach { left, right, body, .. } => {
                add_one(left, &mut out);
                add_one(right, &mut out);
                add_one(body, &mut out);
            },
            Node::Catch { param, body, .. } => {
                add_opt(param, &mut out);
                add_one(body, &mut out);
            },
            Node::Import { specifiers, rest, .. } => {
                add_list(specifiers, &mut out);
                add_list(rest, &mut out);
            },
            Node::Specifier { rest, .. } => {
                add_list(rest, &mut out);
            },
            Node::Other { children, .. } => {
                add_list(children, &mut out);
            },
            _ => {},
        }
        assert(seen(out@) =~= children_of(self@));
        out
    }

    /// The identifier that stands in this piece of syntax itself, not in one of its parts.
    pub fn own_ident(&self) -> (ident: Option<&Ident>)
        ensures
            match ident {
                Some(ident) => own_ident(self@) == Some(ident@),
                None => own_ident(self@) is None,
            },
    {
        match self {
            Node::Ident { ident } => Some(ident),
            Node::PatIdent { ident, .. } => Some(ident),
            Node::PatShorthand { ident, .. } => Some(ident),
            Node::FnDecl { ident, .. } => Some(ident),
            Node::ClassDecl { ident, .. } => Some(ident),
            Node::Specifier { local, .. } => Some(local),
            Node::FnExpr { name, .. } => name.as_ref(),
            Node::ClassExpr { name, .. } => name.as_ref(),
            _ => None,
        }
    }

    /// The source position of this piece of syntax.
    pub fn span(&self) -> (span: Span)
        ensures
            span == span_of(self@),
        decreases self,
    {
        match self {
            Node::Ident { ident } => ident.span,
            Node::This { span } => *span,
            Node::Num { meta, .. } => meta.span,
            Node::Null { span } => *span,
            Node::Array { span, .. } => *span,
            Node::Hole => Span::dummy(),
            Node::Arg { expr, .. } => expr.span(),
            Node::Call { span, .. } => *span,
            Node::Member { span, .. } => *span,
            Node::PropIdent { span, .. } => *span,
            Node::Computed { span, .. } => *span,
            Node::SuperProp { meta, .. } => meta.span,
            Node::OptChain { span, .. } => *span,
            Node::Assign { span, .. } => *span,
            Node::Update { meta, .. } => meta.span,
            Node::Unary { span, .. } => *span,
            Node::Bin { span, .. } => *span,
            Node::Paren { span, .. } => *span,
            Node::Typed { span, .. } => *span,
            Node::FnExpr { function, .. } => function.span(),
            Node::ClassExpr { class, .. } => class.span(),
            Node::Arrow { meta, .. } => meta.span,
            Node::Function { meta, .. } => meta.span,
            Node::Param { meta, .. } => meta.span,
            Node::FunctionBody { span, .. } => *span,
            Node::Constructor { meta, .. } => meta.span,
            Node::Field { meta, .. } => meta.span,
            Node::StaticBlock { span, .. } => *span,
            Node::Accessor { meta, .. } => meta.span,
            Node::PatIdent { ident, .. } => ident.span,
            Node::PatArray { meta, .. } => meta.span,
            Node::PatObject { meta, .. } => meta.span,
            Node::PatAssign { span, .. } => *span,
            Node::PatRest { meta, .. } => meta.span,
            Node::PatProp { value, .. } => value.span(),
            Node::PatShorthand { span, .. } => *span,
            Node::ExprStmt { span, .. } => *span,
            Node::VarDecl { meta, .. } => meta.span,
            Node::Declarator { meta, .. } => meta.span,
            Node::FnDecl { meta, .. } => meta.span,
            Node::ClassDecl { meta, .. } => meta.span,
            Node::Block { meta, .. } => meta.span,
            Node::SwitchCase { span, .. } => *span,
            Node::With { span, .. } => *span,
            Node::ForEach { meta, .. } => meta.span,
            Node::Catch { span, .. } => *span,
            Node::Import { meta, .. } => meta.span,
            Node::Specifier { meta, .. } => meta.span,
            Node::Other { meta, .. } => meta.span,
        }
    }
}

} // verus!
