//! Structural equality: the same syntax, wherever it stands.
use vstd::prelude::*;

use crate::syntax::{
    lemma_trees, opt_ident, opt_tree, trees, Ident, IdentView, Meta, Node, Span, Tree,
};

verus! {

broadcast use lemma_trees;

/// `ident` without its position.
pub open spec fn placeless_ident(ident: IdentView) -> IdentView {
    IdentView { sym: ident.sym, ctxt: ident.ctxt, span: Span::dummy(), optional: false }
}

/// A name that may be missing, without its position.
pub open spec fn placeless_name(name: Option<IdentView>) -> Option<IdentView> {
    match name {
        Some(ident) => Some(placeless_ident(ident)),
        None => None,
    }
}

/// `meta` without its position.
pub open spec fn placeless_meta(meta: Meta) -> Meta {
    Meta { span: Span::dummy(), shape: meta.shape, slot: 0 }
}

/// Whether a spread stands there, without its position.
pub open spec fn placeless_spread(spread: Option<Span>) -> Option<Span> {
    match spread {
        Some(_) => Some(Span::dummy()),
        None => None,
    }
}

/// A part that may be missing, without its positions.
pub open spec fn placeless_opt(part: Option<Box<Tree>>) -> Option<Box<Tree>>
    decreases part,
{
    match part {
        Some(part) => Some(Box::new(placeless(*part))),
        None => None,
    }
}

/// A list of syntax without its positions.
pub open spec fn placeless_list(list: Seq<Tree>) -> Seq<Tree>
    decreases list,
{
    if list.len() == 0 {
        Seq::empty()
    } else {
        placeless_list(list.drop_last()).push(placeless(list.last()))
    }
}

/// `t` without its positions: what is left of two pieces of syntax is equal if and only
/// if they are structurally equal.
pub open spec fn placeless(t: Tree) -> Tree
    decreases t,
{
    match t {
        Tree::Ident { ident } => Tree::Ident { ident: placeless_ident(ident) },
        Tree::This { .. } => Tree::This { span: Span::dummy() },
        Tree::Num { meta, bits } => Tree::Num { meta: placeless_meta(meta), bits },
        Tree::Null { .. } => Tree::Null { span: Span::dummy() },
        Tree::Array { elems, .. } => Tree::Array {
            span: Span::dummy(),
            elems: placeless_list(elems),
        },
        Tree::Hole => Tree::Hole,
        Tree::Arg { spread, expr } => Tree::Arg {
            spread: placeless_spread(spread),
            expr: Box::new(placeless(*expr)),
        },
        Tree::Call { ctxt, callee, args, types, .. } => Tree::Call {
            span: Span::dummy(),
            ctxt,
            callee: Box::new(placeless(*callee)),
            args: placeless_list(args),
            types: placeless_list(types),
        },
        Tree::Member { obj, prop, .. } => Tree::Member {
            span: Span::dummy(),
            obj: Box::new(placeless(*obj)),
            prop: Box::new(placeless(*prop)),
        },
        Tree::PropIdent { sym, .. } => Tree::PropIdent { span: Span::dummy(), sym },
        Tree::Computed { expr, .. } => Tree::Computed {
            span: Span::dummy(),
            expr: Box::new(placeless(*expr)),
        },
        Tree::SuperProp { meta, prop } => Tree::SuperProp {
            meta: placeless_meta(meta),
            prop: Box::new(placeless(*prop)),
        },
        Tree::OptChain { optional, base, .. } => Tree::OptChain {
            span: Span::dummy(),
            optional,
            base: Box::new(placeless(*base)),
        },
        Tree::Assign { op, left, right, .. } => Tree::Assign {
            span: Span::dummy(),
            op,
            left: Box::new(placeless(*left)),
            right: Box::new(placeless(*right)),
        },
        Tree::Update { meta, arg } => Tree::Update {
            meta: placeless_meta(meta),
            arg: Box::new(placeless(*arg)),
        },
        Tree::Unary { op, arg, .. } => Tree::Unary {
            span: Span::dummy(),
            op,
            arg: Box::new(placeless(*arg)),
        },
        Tree::Bin { op, left, right, .. } => Tree::Bin {
            span: Span::dummy(),
            op,
            left: Box::new(placeless(*left)),
            right: Box::new(placeless(*right)),
        },
        Tree::Paren { expr, .. } => Tree::Paren {
            span: Span::dummy(),
            expr: Box::new(placeless(*expr)),
        },
        Tree::Typed { kind, expr, types, .. } => Tree::Typed {
            kind,
            span: Span::dummy(),
            expr: Box::new(placeless(*expr)),
            types: placeless_list(types),
        },
        Tree::FnExpr { name, function } => Tree::FnExpr {
            name: placeless_name(name),
            function: Box::new(placeless(*function)),
        },
        Tree::ClassExpr { name, class } => Tree::ClassExpr {
            name: placeless_name(name),
            class: Box::new(placeless(*class)),
        },
        Tree::Arrow { meta, params, body, types } => Tree::Arrow {
            meta: placeless_meta(meta),
            params: placeless_list(params),
            body: Box::new(placeless(*body)),
            types: placeless_list(types),
        },
        Tree::Function { meta, this_param, params, decorators, body, types } => Tree::Function {
            meta: placeless_meta(meta),
            this_param: placeless_list(this_param),
            params: placeless_list(params),
            decorators: placeless_list(decorators),
            body: placeless_opt(body),
            types: placeless_list(types),
        },
        Tree::Param { meta, decorators, pat } => Tree::Param {
            meta: placeless_meta(meta),
            decorators: placeless_list(decorators),
            pat: Box::new(placeless(*pat)),
        },
        Tree::FunctionBody { stmts, .. } => Tree::FunctionBody {
            span: Span::dummy(),
            stmts: placeless_list(stmts),
        },
        Tree::Constructor { meta, key, params, body } => Tree::Constructor {
            meta: placeless_meta(meta),
            key: Box::new(placeless(*key)),
            params: placeless_list(params),
            body: placeless_opt(body),
        },
        Tree::Field { meta, key, value, types, decorators } => Tree::Field {
            meta: placeless_meta(meta),
            key: Box::new(placeless(*key)),
            value: placeless_opt(value),
            types: placeless_list(types),
            decorators: placeless_list(decorators),
        },
        Tree::StaticBlock { body, .. } => Tree::StaticBlock {
            span: Span::dummy(),
            body: Box::new(placeless(*body)),
        },
        Tree::Accessor { meta, key, function } => Tree::Accessor {
            meta: placeless_meta(meta),
            key: Box::new(placeless(*key)),
            function: Box::new(placeless(*function)),
        },
        Tree::PatIdent { ident, types } => Tree::PatIdent {
            ident: placeless_ident(ident),
            types: placeless_list(types),
        },
        Tree::PatArray { meta, elems, types } => Tree::PatArray {
            meta: placeless_meta(meta),
            elems: placeless_list(elems),
            types: placeless_list(types),
        },
        Tree::PatObject { meta, props, types } => Tree::PatObject {
            meta: placeless_meta(meta),
            props: placeless_list(props),
            types: placeless_list(types),
        },
        Tree::PatAssign { left, right, .. } => Tree::PatAssign {
            span: Span::dummy(),
            left: Box::new(placeless(*left)),
            right: Box::new(placeless(*right)),
        },
        Tree::PatRest { meta, arg, types } => Tree::PatRest {
            meta: placeless_meta(meta),
            arg: Box::new(placeless(*arg)),
            types: placeless_list(types),
        },
        Tree::PatProp { key, value } => Tree::PatProp {
            key: Box::new(placeless(*key)),
            value: Box::new(placeless(*value)),
        },
        Tree::PatShorthand { ident, types, value, .. } => Tree::PatShorthand {
            span: Span::dummy(),
            ident: placeless_ident(ident),
            types: placeless_list(types),
            value: placeless_opt(value),
        },
        Tree::ExprStmt { expr, .. } => Tree::ExprStmt {
            span: Span::dummy(),
            expr: Box::new(placeless(*expr)),
        },
        Tree::VarDecl { meta, kind, decls } => Tree::VarDecl {
            meta: placeless_meta(meta),
            kind,
            decls: placeless_list(decls),
        },
        Tree::Declarator { meta, name, init } => Tree::Declarator {
            meta: placeless_meta(meta),
            name: Box::new(placeless(*name)),
            init: placeless_opt(init),
        },
        Tree::FnDecl { meta, ident, function } => Tree::FnDecl {
            meta: placeless_meta(meta),
            ident: placeless_ident(ident),
            function: Box::new(placeless(*function)),
        },
        Tree::ClassDecl { meta, ident, class } => Tree::ClassDecl {
            meta: placeless_meta(meta),
            ident: placeless_ident(ident),
            class: Box::new(placeless(*class)),
        },
        Tree::Block { meta, stmts } => Tree::Block {
            meta: placeless_meta(meta),
            stmts: placeless_list(stmts),
        },
        Tree::SwitchCase { test, cons, .. } => Tree::SwitchCase {
            span: Span::dummy(),
            test: placeless_opt(test),
            cons: placeless_list(cons),
        },
        Tree::With { obj, body, .. } => Tree::With {
            span: Span::dummy(),
            obj: Box::new(placeless(*obj)),
            body: Box::new(placeless(*body)),
        },
        Tree::ForEach { meta, left, right, body } => Tree::ForEach {
            meta: placeless_meta(meta),
            left: Box::new(placeless(*left)),
            right: Box::new(placeless(*right)),
            body: Box::new(placeless(*body)),
        },
        Tree::Catch { param, body, .. } => Tree::Catch {
            span: Span::dummy(),
            param: placeless_opt(param),
            body: Box::new(placeless(*body)),
        },
        Tree::Import { meta, specifiers, rest } => Tree::Import {
            meta: placeless_meta(meta),
            specifiers: placeless_list(specifiers),
            rest: placeless_list(rest),
        },
        Tree::Specifier { meta, kind, local, rest } => Tree::Specifier {
            meta: placeless_meta(meta),
            kind,
            local: placeless_ident(local),
            rest: placeless_list(rest),
        },
        Tree::Other { meta, children } => Tree::Other {
            meta: placeless_meta(meta),
            children: placeless_list(children),
        },
    }
}

/// The parts of a list stay where they are when positions go.
pub proof fn lemma_placeless_list(list: Seq<Tree>)
    ensures
        placeless_list(list).len() == list.len(),
        forall|i: int|
            0 <= i < list.len() ==> #[trigger] placeless_list(list)[i] == placeless(list[i]),
    decreases list.len(),
{
    if list.len() > 0 {
        lemma_placeless_list(list.drop_last());
    }
}

/// Whether two identifiers are the same binding.
pub fn same_ident(a: &Ident, b: &Ident) -> (same: bool)
    ensures
        same <==> a@.sym == b@.sym && a@.ctxt == b@.ctxt,
{
    a.sym == b.sym && a.ctxt == b.ctxt
}

fn same_name(a: &Option<Ident>, b: &Option<Ident>) -> (same: bool)
    ensures
        same <==> placeless_name(opt_ident(*a)) == placeless_name(opt_ident(*b)),
{
    match (a, b) {
        (Some(a), Some(b)) => same_ident(a, b),
        (None, None) => true,
        _ => false,
    }
}

fn same_spread(a: &Option<Span>, b: &Option<Span>) -> (same: bool)
    ensures
        same <==> placeless_spread(*a) == placeless_spread(*b),
{
    a.is_some() == b.is_some()
}

fn same_opt(a: &Option<Box<Node>>, b: &Option<Box<Node>>) -> (same: bool)
    ensures
        same <==> placeless_opt(opt_tree(*a)) == placeless_opt(opt_tree(*b)),
    decreases a, 2int,
{
    match (a, b) {
        (Some(a), Some(b)) => same_syntax(a, b),
        (None, None) => true,
        _ => false,
    }
}

fn same_list(a: &Vec<Node>, b: &Vec<Node>) -> (same: bool)
    ensures
        same <==> placeless_list(trees(a@)) == placeless_list(trees(b@)),
    decreases a, 2int,
{
    proof {
        lemma_placeless_list(trees(a@));
        lemma_placeless_list(trees(b@));
    }
    if a.len() != b.len() {
        return false;
    }
    let mut i: usize = 0;
    while i < a.len()
        invariant
            i <= a.len(),
            a.len() == b.len(),
            forall|k: int|
                0 <= k < i ==> #[trigger] placeless_list(trees(a@))[k] == placeless_list(
                    trees(b@),
                )[k],
        decreases a.len() - i,
    {
        proof {
            lemma_placeless_list(trees(a@));
            lemma_placeless_list(trees(b@));
        }
        if !same_syntax(&a[i], &b[i]) {
            assert(placeless_list(trees(a@))[i as int] != placeless_list(trees(b@))[i as int]);
            return false;
        }
        i += 1;
    }
    assert(placeless_list(trees(a@)) =~= placeless_list(trees(b@)));
    true
}


/// The variant of a node is kept when positions go.
proof fn lemma_variant(n: Node)
    ensures
        placeless(n@) is Ident <==> n is Ident,
        placeless(n@) is This <==> n is This,
        placeless(n@) is Num <==> n is Num,
        placeless(n@) is Null <==> n is Null,
        placeless(n@) is Array <==> n is Array,
        placeless(n@) is Hole <==> n is Hole,
        placeless(n@) is Arg <==> n is Arg,
        placeless(n@) is Call <==> n is Call,
        placeless(n@) is Member <==> n is Member,
        placeless(n@) is PropIdent <==> n is PropIdent,
        placeless(n@) is Computed <==> n is Computed,
        placeless(n@) is SuperProp <==> n is SuperProp,
        placeless(n@) is OptChain <==> n is OptChain,
        placeless(n@) is Assign <==> n is Assign,
        placeless(n@) is Update <==> n is Update,
        placeless(n@) is Unary <==> n is Unary,
        placeless(n@) is Bin <==> n is Bin,
        placeless(n@) is Paren <==> n is Paren,
        placeless(n@) is Typed <==> n is Typed,
        placeless(n@) is FnExpr <==> n is FnExpr,
        placeless(n@) is ClassExpr <==> n is ClassExpr,
        placeless(n@) is Arrow <==> n is Arrow,
        placeless(n@) is Function <==> n is Function,
        placeless(n@) is Param <==> n is Param,
        placeless(n@) is FunctionBody <==> n is FunctionBody,
        placeless(n@) is Constructor <==> n is Constructor,
        placeless(n@) is Field <==> n is Field,
        placeless(n@) is StaticBlock <==> n is StaticBlock,
        placeless(n@) is Accessor <==> n is Accessor,
        placeless(n@) is PatIdent <==> n is PatIdent,
        placeless(n@) is PatArray <==> n is PatArray,
        placeless(n@) is PatObject <==> n is PatObject,
        placeless(n@) is PatAssign <==> n is PatAssign,
        placeless(n@) is PatRest <==> n is PatRest,
        placeless(n@) is PatProp <==> n is PatProp,
        placeless(n@) is PatShorthand <==> n is PatShorthand,
        placeless(n@) is ExprStmt <==> n is ExprStmt,
        placeless(n@) is VarDecl <==> n is VarDecl,
        placeless(n@) is Declarator <==> n is Declarator,
        placeless(n@) is FnDecl <==> n is FnDecl,
        placeless(n@) is ClassDecl <==> n is ClassDecl,
        placeless(n@) is Block <==> n is Block,
        placeless(n@) is SwitchCase <==> n is SwitchCase,
        placeless(n@) is With <==> n is With,
        placeless(n@) is ForEach <==> n is ForEach,
        placeless(n@) is Catch <==> n is Catch,
        placeless(n@) is Import <==> n is Import,
        placeless(n@) is Specifier <==> n is Specifier,
        placeless(n@) is Other <==> n is Other,
{
}

/// Whether two pieces of syntax are structurally equal: the same but for positions.
pub fn same_syntax(a: &Node, b: &Node) -> (same: bool)
    ensures
        same <==> placeless(a@) == placeless(b@),
    decreases a, 1int,
{
    match a {
        Node::Ident { .. }
        | Node::This { .. }
        | Node::Num { .. }
        | Node::Null { .. }
        | Node::Array { .. }
        | Node::Hole
        | Node::Arg { .. }
        | Node::Call { .. }
        | Node::Member { .. }
        | Node::PropIdent { .. }
        | Node::Computed { .. } => same_reference(a, b),
        Node::SuperProp { .. }
        | Node::OptChain { .. }
        | Node::Assign { .. }
        | Node::Update { .. }
        | Node::Unary { .. }
        | Node::Bin { .. }
        | Node::Paren { .. }
        | Node::Typed { .. }
        | Node::FnExpr { .. }
        | Node::ClassExpr { .. }
        | Node::Arrow { .. } => same_operation(a, b),
        Node::Function { .. }
        | Node::Param { .. }
        | Node::FunctionBody { .. }
        | Node::Constructor { .. }
        | Node::Field { .. }
        | Node::StaticBlock { .. }
        | Node::Accessor { .. } => same_function(a, b),
        Node::PatIdent { .. }
        | Node::PatArray { .. }
        | Node::PatObject { .. }
        | Node::PatAssign { .. }
        | Node::PatRest { .. }
        | Node::PatProp { .. }
        | Node::PatShorthand { .. } => same_pattern(a, b),
        Node::ExprStmt { .. }
        | Node::VarDecl { .. }
        | Node::Declarator { .. }
        | Node::FnDecl { .. }
        | Node::ClassDecl { .. }
        | Node::Block { .. }
        | Node::SwitchCase { .. }
        | Node::With { .. }
        | Node::ForEach { .. }
        | Node::Catch { .. } => same_statement(a, b),
        _ => same_item(a, b),
    }
}

fn same_reference(a: &Node, b: &Node) -> (same: bool)
    requires
        a is Ident || a is This || a is Num || a is Null || a is Array || a is Hole || a is Arg
            || a is Call || a is Member || a is PropIdent || a is Computed,
    ensures
        same <==> placeless(a@) == placeless(b@),
    decreases a, 0int,
{
    proof {
        lemma_variant(*b);
    }
    match a {
        Node::Ident { ident } => match b {
            Node::Ident { ident: ident2 } => same_ident(ident, ident2),
            _ => false,
        },
        Node::This { .. } => match b {
            Node::This { .. } => true,
            _ => false,
        },
        Node::Num { meta, bits } => match b {
            Node::Num { meta: meta2, bits: bits2 } => {
                meta.shape == meta2.shape && *bits == *bits2
            },
            _ => false,
        },
        Node::Null { .. } => match b {
            Node::Null { .. } => true,
            _ => false,
        },
        Node::Array { elems, .. } => match b {
            Node::Array { elems: elems2, .. } => same_list(elems, elems2),
            _ => false,
        },
        Node::Hole => match b {
            Node::Hole => true,
            _ => false,
        },
        Node::Arg { spread, expr } => match b {
            Node::Arg { spread: spread2, expr: expr2 } => {
                same_spread(spread, spread2) && same_syntax(expr, expr2)
            },
            _ => false,
        },
        Node::Call { ctxt, callee, args, types, .. } => match b {
            Node::Call { ctxt: ctxt2, callee: callee2, args: args2, types: types2, .. } => {
                *ctxt == *ctxt2
                    && same_syntax(callee, callee2)
                    && same_list(args, args2)
                    && same_list(types, types2)
            },
            _ => false,
        },
        Node::Member { obj, prop, .. } => match b {
            Node::Member { obj: obj2, prop: prop2, .. } => {
                same_syntax(obj, obj2) && same_syntax(prop, prop2)
            },
            _ => false,
        },
        Node::PropIdent { sym, .. } => match b {
            Node::PropIdent { sym: sym2, .. } => *sym == *sym2,
            _ => false,
        },
        Node::Computed { expr, .. } => match b {
            Node::Computed { expr: expr2, .. } => same_syntax(expr, expr2),
            _ => false,
        },
        _ => false,
    }
}

fn same_operation(a: &Node, b: &Node) -> (same: bool)
    requires
        a is SuperProp || a is OptChain || a is Assign || a is Update || a is Unary || a is Bin
            || a is Paren || a is Typed || a is FnExpr || a is ClassExpr || a is Arrow,
    ensures
        same <==> placeless(a@) == placeless(b@),
    decreases a, 0int,
{
    proof {
        lemma_variant(*b);
    }
    match a {
        Node::SuperProp { meta, prop } => match b {
            Node::SuperProp { meta: meta2, prop: prop2 } => {
                meta.shape == meta2.shape && same_syntax(prop, prop2)
            },
            _ => false,
        },
        Node::OptChain { optional, base, .. } => match b {
            Node::OptChain { optional: optional2, base: base2, .. } => {
                *optional == *optional2 && same_syntax(base, base2)
            },
            _ => false,
        },
        Node::Assign { op, left, right, .. } => match b {
            Node::Assign { op: op2, left: left2, right: right2, .. } => {
                *op == *op2 && same_syntax(left, left2) && same_syntax(right, right2)
            },
            _ => false,
        },
        Node::Update { meta, arg } => match b {
            Node::Update { meta: meta2, arg: arg2 } => {
                meta.shape == meta2.shape && same_syntax(arg, arg2)
            },
            _ => false,
        },
        Node::Unary { op, arg, .. } => match b {
            Node::Unary { op: op2, arg: arg2, .. } => *op == *op2 && same_syntax(arg, arg2),
            _ => false,
        },
        Node::Bin { op, left, right, .. } => match b {
            Node::Bin { op: op2, left: left2, right: right2, .. } => {
                *op == *op2 && same_syntax(left, left2) && same_syntax(right, right2)
            },
            _ => false,
        },
        Node::Paren { expr, .. } => match b {
            Node::Paren { expr: expr2, .. } => same_syntax(expr, expr2),
            _ => false,
        },
        Node::Typed { kind, expr, types, .. } => match b {
            Node::Typed { kind: kind2, expr: expr2, types: types2, .. } => {
                *kind == *kind2 && same_syntax(expr, expr2) && same_list(types, types2)
            },
            _ => false,
        },
        Node::FnExpr { name, function } => match b {
            Node::FnExpr { name: name2, function: function2 } => {
                same_name(name, name2) && same_syntax(function, function2)
            },
            _ => false,
        },
        Node::ClassExpr { name, class } => match b {
            Node::ClassExpr { name: name2, class: class2 } => {
                same_name(name, name2) && same_syntax(class, class2)
            },
            _ => false,
        },
        Node::Arrow { meta, params, body, types } => match b {
            Node::Arrow { meta: meta2, params: params2, body: body2, types: types2 } => {
                meta.shape == meta2.shape
                    && same_list(params, params2)
                    && same_syntax(body, body2)
                    && same_list(types, types2)
            },
            _ => false,
        },
        _ => false,
    }
}

fn same_function(a: &Node, b: &Node) -> (same: bool)
    requires
        a is Function || a is Param || a is FunctionBody || a is Constructor || a is Field
            || a is StaticBlock || a is Accessor,
    ensures
        same <==> placeless(a@) == placeless(b@),
    decreases a, 0int,
{
    proof {
        lemma_variant(*b);
    }
    match a {
        Node::Function { meta, this_param, params, decorators, body, types } => match b {
            Node::Function {
                meta: meta2,
                this_param: this_param2,
                params: params2,
                decorators: decorators2,
                body: body2,
                types: types2,
            } => {
                meta.shape == meta2.shape
                    && same_list(this_param, this_param2)
                    && same_list(params, params2)
                    && same_list(decorators, decorators2)
                    && same_opt(body, body2)
                    && same_list(types, types2)
            },
            _ => false,
        },
        Node::Param { meta, decorators, pat } => match b {
            Node::Param { meta: meta2, decorators: decorators2, pat: pat2 } => {
                meta.shape == meta2.shape
                    && same_list(decorators, decorators2)
                    && same_syntax(pat, pat2)
            },
            _ => false,
        },
        Node::FunctionBody { stmts, .. } => match b {
            Node::FunctionBody { stmts: stmts2, .. } => same_list(stmts, stmts2),
            _ => false,
        },
        Node::Constructor { meta, key, params, body } => match b {
            Node::Constructor { meta: meta2, key: key2, params: params2, body: body2 } => {
                meta.shape == meta2.shape
                    && same_syntax(key, key2)
                    && same_list(params, params2)
                    && same_opt(body, body2)
            },
            _ => false,
        },
        Node::Field { meta, key, value, types, decorators } => match b {
            Node::Field {
                meta: meta2,
                key: key2,
                value: value2,
                types: types2,
                decorators: decorators2,
            } => {
                meta.shape == meta2.shape
                    && same_syntax(key, key2)
                    && same_opt(value, value2)
                    && same_list(types, types2)
                    && same_list(decorators, decorators2)
            },
            _ => false,
        },
        Node::StaticBlock { body, .. } => match b {
            Node::StaticBlock { body: body2, .. } => same_syntax(body, body2),
            _ => false,
        },
        Node::Accessor { meta, key, function } => match b {
            Node::Accessor { meta: meta2, key: key2, function: function2 } => {
                meta.shape == meta2.shape
                    && same_syntax(key, key2)
                    && same_syntax(function, function2)
            },
            _ => false,
        },
        _ => false,
    }
}

fn same_pattern(a: &Node, b: &Node) -> (same: bool)
    requires
        a is PatIdent || a is PatArray || a is PatObject || a is PatAssign || a is PatRest
            || a is PatProp || a is PatShorthand,
    ensures
        same <==> placeless(a@) == placeless(b@),
    decreases a, 0int,
{
    proof {
        lemma_variant(*b);
    }
    match a {
        Node::PatIdent { ident, types } => match b {
            Node::PatIdent { ident: ident2, types: types2 } => {
                same_ident(ident, ident2) && same_list(types, types2)
            },
            _ => false,
        },
        Node::PatArray { meta, elems, types } => match b {
            Node::PatArray { meta: meta2, elems: elems2, types: types2 } => {
                meta.shape == meta2.shape && same_list(elems, elems2) && same_list(types, types2)
            },
            _ => false,
        },
        Node::PatObject { meta, props, types } => match b {
            Node::PatObject { meta: meta2, props: props2, types: types2 } => {
                meta.shape == meta2.shape && same_list(props, props2) && same_list(types, types2)
            },
            _ => false,
        },
        Node::PatAssign { left, right, .. } => match b {
            Node::PatAssign { left: left2, right: right2, .. } => {
                same_syntax(left, left2) && same_syntax(right, right2)
            },
            _ => false,
        },
        Node::PatRest { meta, arg, types } => match b {
            Node::PatRest { meta: meta2, arg: arg2, types: types2 } => {
                meta.shape == meta2.shape && same_syntax(arg, arg2) && same_list(types, types2)
            },
            _ => false,
        },
        Node::PatProp { key, value } => match b {
            Node::PatProp { key: key2, value: value2 } => {
                same_syntax(key, key2) && same_syntax(value, value2)
            },
            _ => false,
        },
        Node::PatShorthand { ident, types, value, .. } => match b {
            Node::PatShorthand { ident: ident2, types: types2, value: value2, .. } => {
                same_ident(ident, ident2) && same_list(types, types2) && same_opt(value, value2)
            },
            _ => false,
        },
        _ => false,
    }
}

fn same_statement(a: &Node, b: &Node) -> (same: bool)
    requires
        a is ExprStmt || a is VarDecl || a is Declarator || a is FnDecl || a is ClassDecl
            || a is Block || a is SwitchCase || a is With || a is ForEach || a is Catch,
    ensures
        same <==> placeless(a@) == placeless(b@),
    decreases a, 0int,
{
    proof {
        lemma_variant(*b);
    }
    match a {
        Node::ExprStmt { expr, .. } => match b {
            Node::ExprStmt { expr: expr2, .. } => same_syntax(expr, expr2),
            _ => false,
        },
        Node::VarDecl { meta, kind, decls } => match b {
            Node::VarDecl { meta: meta2, kind: kind2, decls: decls2 } => {
                meta.shape == meta2.shape && *kind == *kind2 && same_list(decls, decls2)
            },
            _ => false,
        },
        Node::Declarator { meta, name, init } => match b {
            Node::Declarator { meta: meta2, name: name2, init: init2 } => {
                meta.shape == meta2.shape && same_syntax(name, name2) && same_opt(init, init2)
            },
            _ => false,
        },
        Node::FnDecl { meta, ident, function } => match b {
            Node::FnDecl { meta: meta2, ident: ident2, function: function2 } => {
                meta.shape == meta2.shape
                    && same_ident(ident, ident2)
                    && same_syntax(function, function2)
            },
            _ => false,
        },
        Node::ClassDecl { meta, ident, class } => match b {
            Node::ClassDecl { meta: meta2, ident: ident2, class: class2 } => {
                meta.shape == meta2.shape && same_ident(ident, ident2) && same_syntax(class, class2)
            },
            _ => false,
        },
        Node::Block { meta, stmts } => match b {
            Node::Block { meta: meta2, stmts: stmts2 } => {
                meta.shape == meta2.shape && same_list(stmts, stmts2)
            },
            _ => false,
        },
        Node::SwitchCase { test, cons, .. } => match b {
            Node::SwitchCase { test: test2, cons: cons2, .. } => {
                same_opt(test, test2) && same_list(cons, cons2)
            },
            _ => false,
        },
        Node::With { obj, body, .. } => match b {
            Node::With { obj: obj2, body: body2, .. } => {
                same_syntax(obj, obj2) && same_syntax(body, body2)
            },
            _ => false,
        },
        Node::ForEach { meta, left, right, body } => match b {
            Node::ForEach { meta: meta2, left: left2, right: right2, body: body2 } => {
                meta.shape == meta2.shape
                    && same_syntax(left, left2)
                    && same_syntax(right, right2)
                    && same_syntax(body, body2)
            },
            _ => false,
        },
        Node::Catch { param, body, .. } => match b {
            Node::Catch { param: param2, body: body2, .. } => {
                same_opt(param, param2) && same_syntax(body, body2)
            },
            _ => false,
        },
        _ => false,
    }
}

fn same_item(a: &Node, b: &Node) -> (same: bool)
    requires
        a is Import || a is Specifier || a is Other,
    ensures
        same <==> placeless(a@) == placeless(b@),
    decreases a, 0int,
{
    proof {
        lemma_variant(*b);
    }
    match a {
        Node::Import { meta, specifiers, rest } => match b {
            Node::Import { meta: meta2, specifiers: specifiers2, rest: rest2 } => {
                meta.shape == meta2.shape
                    && same_list(specifiers, specifiers2)
                    && same_list(rest, rest2)
            },
            _ => false,
        },
        Node::Specifier { meta, kind, local, rest } => match b {
            Node::Specifier { meta: meta2, kind: kind2, local: local2, rest: rest2 } => {
                meta.shape == meta2.shape
                    && *kind == *kind2
                    && same_ident(local, local2)
                    && same_list(rest, rest2)
            },
            _ => false,
        },
        Node::Other { meta, children } => match b {
            Node::Other { meta: meta2, children: children2 } => {
                meta.shape == meta2.shape && same_list(children, children2)
            },
            _ => false,
        },
        _ => false,
    }
}

} // verus!
