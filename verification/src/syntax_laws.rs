//! What a piece of syntax consists of: itself, and its parts.
use vstd::prelude::*;

use crate::same::{lemma_placeless_list, placeless, placeless_list, placeless_opt};
use crate::syntax::{
    lemma_trees, opt_tree, trees, Ident, IdentView, Meta, Module, Node, Span, Tree,
};
use crate::walk::{children_of, opt_part, own_ident, span_of};

verus! {

broadcast use lemma_trees;

/// As many holes.
pub open spec fn holes(n: nat) -> Seq<Tree> {
    Seq::new(n, |i: int| Tree::Hole)
}

/// A hole, where something is there.
pub open spec fn hole_if(there: bool) -> Option<Box<Tree>> {
    if there {
        Some(Box::new(Tree::Hole))
    } else {
        None
    }
}

/// `t` itself: what is left of it where each of its parts is a hole.
pub open spec fn shell(t: Tree) -> Tree {
    match t {
        Tree::Ident { .. } => t,
        Tree::This { .. } => t,
        Tree::Num { .. } => t,
        Tree::Null { .. } => t,
        Tree::Array { span, elems } => Tree::Array { span, elems: holes(elems.len()) },
        Tree::Hole => t,
        Tree::Arg { spread, .. } => Tree::Arg { spread, expr: Box::new(Tree::Hole) },
        Tree::Call { span, ctxt, args, types, .. } => Tree::Call {
            span,
            ctxt,
            callee: Box::new(Tree::Hole),
            args: holes(args.len()),
            types: holes(types.len()),
        },
        Tree::Member { span, .. } => Tree::Member {
            span,
            obj: Box::new(Tree::Hole),
            prop: Box::new(Tree::Hole),
        },
        Tree::PropIdent { .. } => t,
        Tree::Computed { span, .. } => Tree::Computed { span, expr: Box::new(Tree::Hole) },
        Tree::SuperProp { meta, .. } => Tree::SuperProp { meta, prop: Box::new(Tree::Hole) },
        Tree::OptChain { span, optional, .. } => Tree::OptChain {
            span,
            optional,
            base: Box::new(Tree::Hole),
        },
        Tree::Assign { span, op, .. } => Tree::Assign {
            span,
            op,
            left: Box::new(Tree::Hole),
            right: Box::new(Tree::Hole),
        },
        Tree::Update { meta, .. } => Tree::Update { meta, arg: Box::new(Tree::Hole) },
        Tree::Unary { span, op, .. } => Tree::Unary { span, op, arg: Box::new(Tree::Hole) },
        Tree::Bin { span, op, .. } => Tree::Bin {
            span,
            op,
            left: Box::new(Tree::Hole),
            right: Box::new(Tree::Hole),
        },
        Tree::Paren { span, .. } => Tree::Paren { span, expr: Box::new(Tree::Hole) },
        Tree::Typed { kind, span, types, .. } => Tree::Typed {
            kind,
            span,
            expr: Box::new(Tree::Hole),
            types: holes(types.len()),
        },
        Tree::FnExpr { name, .. } => Tree::FnExpr { name, function: Box::new(Tree::Hole) },
        Tree::ClassExpr { name, .. } => Tree::ClassExpr { name, class: Box::new(Tree::Hole) },
        Tree::Arrow { meta, params, types, .. } => Tree::Arrow {
            meta,
            params: holes(params.len()),
            body: Box::new(Tree::Hole),
            types: holes(types.len()),
        },
        Tree::Function { meta, this_param, params, decorators, body, types } => Tree::Function {
            meta,
            this_param: holes(this_param.len()),
            params: holes(params.len()),
            decorators: holes(decorators.len()),
            body: hole_if(body is Some),
            types: holes(types.len()),
        },
        Tree::Param { meta, decorators, .. } => Tree::Param {
            meta,
            decorators: holes(decorators.len()),
            pat: Box::new(Tree::Hole),
        },
        Tree::FunctionBody { span, stmts } => Tree::FunctionBody {
            span,
            stmts: holes(stmts.len()),
        },
        Tree::Constructor { meta, params, body, .. } => Tree::Constructor {
            meta,
            key: Box::new(Tree::Hole),
            params: holes(params.len()),
            body: hole_if(body is Some),
        },
        Tree::Field { meta, value, types, decorators, .. } => Tree::Field {
            meta,
            key: Box::new(Tree::Hole),
            value: hole_if(value is Some),
            types: holes(types.len()),
            decorators: holes(decorators.len()),
        },
        Tree::StaticBlock { span, .. } => Tree::StaticBlock { span, body: Box::new(Tree::Hole) },
        Tree::Accessor { meta, .. } => Tree::Accessor {
            meta,
            key: Box::new(Tree::Hole),
            function: Box::new(Tree::Hole),
        },
        Tree::PatIdent { ident, types } => Tree::PatIdent { ident, types: holes(types.len()) },
        Tree::PatArray { meta, elems, types } => Tree::PatArray {
            meta,
            elems: holes(elems.len()),
            types: holes(types.len()),
        },
        Tree::PatObject { meta, props, types } => Tree::PatObject {
            meta,
            props: holes(props.len()),
            types: holes(types.len()),
        },
        Tree::PatAssign { span, .. } => Tree::PatAssign {
            span,
            left: Box::new(Tree::Hole),
            right: Box::new(Tree::Hole),
        },
        Tree::PatRest { meta, types, .. } => Tree::PatRest {
            meta,
            arg: Box::new(Tree::Hole),
            types: holes(types.len()),
        },
        Tree::PatProp { .. } => Tree::PatProp {
            key: Box::new(Tree::Hole),
            value: Box::new(Tree::Hole),
        },
        Tree::PatShorthand { span, ident, types, value } => Tree::PatShorthand {
            span,
            ident,
            types: holes(types.len()),
            value: hole_if(value is Some),
        },
        Tree::ExprStmt { span, .. } => Tree::ExprStmt { span, expr: Box::new(Tree::Hole) },
        Tree::VarDecl { meta, kind, decls } => Tree::VarDecl {
            meta,
            kind,
            decls: holes(decls.len()),
        },
        Tree::Declarator { meta, init, .. } => Tree::Declarator {
            meta,
            name: Box::new(Tree::Hole),
            init: hole_if(init is Some),
        },
        Tree::FnDecl { meta, ident, .. } => Tree::FnDecl {
            meta,
            ident,
            function: Box::new(Tree::Hole),
        },
        Tree::ClassDecl { meta, ident, .. } => Tree::ClassDecl {
            meta,
            ident,
            class: Box::new(Tree::Hole),
        },
        Tree::Block { meta, stmts } => Tree::Block { meta, stmts: holes(stmts.len()) },
        Tree::SwitchCase { span, test, cons } => Tree::SwitchCase {
            span,
            test: hole_if(test is Some),
            cons: holes(cons.len()),
        },
        Tree::With { span, .. } => Tree::With {
            span,
            obj: Box::new(Tree::Hole),
            body: Box::new(Tree::Hole),
        },
        Tree::ForEach { meta, .. } => Tree::ForEach {
            meta,
            left: Box::new(Tree::Hole),
            right: Box::new(Tree::Hole),
            body: Box::new(Tree::Hole),
        },
        Tree::Catch { span, param, .. } => Tree::Catch {
            span,
            param: hole_if(param is Some),
            body: Box::new(Tree::Hole),
        },
        Tree::Import { meta, specifiers, rest } => Tree::Import {
            meta,
            specifiers: holes(specifiers.len()),
            rest: holes(rest.len()),
        },
        Tree::Specifier { meta, kind, local, rest } => Tree::Specifier {
            meta,
            kind,
            local,
            rest: holes(rest.len()),
        },
        Tree::Other { meta, children } => Tree::Other { meta, children: holes(children.len()) },
    }
}

/// The position that `t` has of its own.
pub open spec fn own_position(t: Tree) -> Option<Span> {
    match t {
        Tree::Ident { ident } => Some(ident.span),
        Tree::This { span } => Some(span),
        Tree::Num { meta, .. } => Some(meta.span),
        Tree::Null { span } => Some(span),
        Tree::Array { span, .. } => Some(span),
        Tree::Call { span, .. } => Some(span),
        Tree::Member { span, .. } => Some(span),
        Tree::PropIdent { span, .. } => Some(span),
        Tree::Computed { span, .. } => Some(span),
        Tree::SuperProp { meta, .. } => Some(meta.span),
        Tree::OptChain { span, .. } => Some(span),
        Tree::Assign { span, .. } => Some(span),
        Tree::Update { meta, .. } => Some(meta.span),
        Tree::Unary { span, .. } => Some(span),
        Tree::Bin { span, .. } => Some(span),
        Tree::Paren { span, .. } => Some(span),
        Tree::Typed { span, .. } => Some(span),
        Tree::Arrow { meta, .. } => Some(meta.span),
        Tree::Function { meta, .. } => Some(meta.span),
        Tree::Param { meta, .. } => Some(meta.span),
        Tree::FunctionBody { span, .. } => Some(span),
        Tree::Constructor { meta, .. } => Some(meta.span),
        Tree::Field { meta, .. } => Some(meta.span),
        Tree::StaticBlock { span, .. } => Some(span),
        Tree::Accessor { meta, .. } => Some(meta.span),
        Tree::PatIdent { ident, .. } => Some(ident.span),
        Tree::PatArray { meta, .. } => Some(meta.span),
        Tree::PatObject { meta, .. } => Some(meta.span),
        Tree::PatAssign { span, .. } => Some(span),
        Tree::PatRest { meta, .. } => Some(meta.span),
        Tree::PatShorthand { span, .. } => Some(span),
        Tree::ExprStmt { span, .. } => Some(span),
        Tree::VarDecl { meta, .. } => Some(meta.span),
        Tree::Declarator { meta, .. } => Some(meta.span),
        Tree::FnDecl { meta, .. } => Some(meta.span),
        Tree::ClassDecl { meta, .. } => Some(meta.span),
        Tree::Block { meta, .. } => Some(meta.span),
        Tree::SwitchCase { span, .. } => Some(span),
        Tree::With { span, .. } => Some(span),
        Tree::ForEach { meta, .. } => Some(meta.span),
        Tree::Catch { span, .. } => Some(span),
        Tree::Import { meta, .. } => Some(meta.span),
        Tree::Specifier { meta, .. } => Some(meta.span),
        Tree::Other { meta, .. } => Some(meta.span),
        _ => None,
    }
}

/// Syntax is where its own position says; an argument is where its expression is, a function
/// or class expression where its function or class is, and a property of a pattern where its
/// value is.
pub proof fn law_positions(t: Tree)
    ensures
        match own_position(t) {
            Some(span) => span_of(t) == span,
            None => match t {
                Tree::Arg { expr, .. } => span_of(t) == span_of(*expr),
                Tree::FnExpr { function, .. } => span_of(t) == span_of(*function),
                Tree::ClassExpr { class, .. } => span_of(t) == span_of(*class),
                Tree::PatProp { value, .. } => span_of(t) == span_of(*value),
                _ => t is Hole && span_of(t) == placed_nowhere(),
            },
        },
{
}

/// No position.
pub open spec fn placed_nowhere() -> Span {
    Span { lo: 0, hi: 0 }
}

/// What `meta` says beside the position.
pub open spec fn unplaced_meta(meta: Meta) -> Meta {
    Meta { span: placed_nowhere(), shape: meta.shape, slot: 0 }
}

/// The name and the context of `ident`.
pub open spec fn unplaced_ident(ident: IdentView) -> IdentView {
    IdentView { sym: ident.sym, ctxt: ident.ctxt, span: placed_nowhere(), optional: false }
}

/// The name and the context of an identifier that may be missing.
pub open spec fn unplaced_name(name: Option<IdentView>) -> Option<IdentView> {
    if name is Some {
        Some(unplaced_ident(name->0))
    } else {
        None
    }
}

/// Whether a spread is there.
pub open spec fn unplaced_spread(spread: Option<Span>) -> Option<Span> {
    if spread is Some {
        Some(placed_nowhere())
    } else {
        None
    }
}

/// `t` itself without its positions, where each of its parts is a hole.
pub open spec fn form(t: Tree) -> Tree {
    match t {
        Tree::Ident { ident } => Tree::Ident { ident: unplaced_ident(ident) },
        Tree::This { .. } => Tree::This { span: placed_nowhere() },
        Tree::Num { meta, bits } => Tree::Num { meta: unplaced_meta(meta), bits },
        Tree::Null { .. } => Tree::Null { span: placed_nowhere() },
        Tree::Array { elems, .. } => Tree::Array {
            span: placed_nowhere(),
            elems: holes(elems.len()),
        },
        Tree::Hole => t,
        Tree::Arg { spread, .. } => Tree::Arg {
            spread: unplaced_spread(spread),
            expr: Box::new(Tree::Hole),
        },
        Tree::Call { ctxt, args, types, .. } => Tree::Call {
            span: placed_nowhere(),
            ctxt,
            callee: Box::new(Tree::Hole),
            args: holes(args.len()),
            types: holes(types.len()),
        },
        Tree::Member { .. } => Tree::Member {
            span: placed_nowhere(),
            obj: Box::new(Tree::Hole),
            prop: Box::new(Tree::Hole),
        },
        Tree::PropIdent { sym, .. } => Tree::PropIdent { span: placed_nowhere(), sym },
        Tree::Computed { .. } => Tree::Computed {
            span: placed_nowhere(),
            expr: Box::new(Tree::Hole),
        },
        Tree::SuperProp { meta, .. } => Tree::SuperProp {
            meta: unplaced_meta(meta),
            prop: Box::new(Tree::Hole),
        },
        Tree::OptChain { optional, .. } => Tree::OptChain {
            span: placed_nowhere(),
            optional,
            base: Box::new(Tree::Hole),
        },
        Tree::Assign { op, .. } => Tree::Assign {
            span: placed_nowhere(),
            op,
            left: Box::new(Tree::Hole),
            right: Box::new(Tree::Hole),
        },
        Tree::Update { meta, .. } => Tree::Update {
            meta: unplaced_meta(meta),
            arg: Box::new(Tree::Hole),
        },
        Tree::Unary { op, .. } => Tree::Unary {
            span: placed_nowhere(),
            op,
            arg: Box::new(Tree::Hole),
        },
        Tree::Bin { op, .. } => Tree::Bin {
            span: placed_nowhere(),
            op,
            left: Box::new(Tree::Hole),
            right: Box::new(Tree::Hole),
        },
        Tree::Paren { .. } => Tree::Paren { span: placed_nowhere(), expr: Box::new(Tree::Hole) },
        Tree::Typed { kind, types, .. } => Tree::Typed {
            kind,
            span: placed_nowhere(),
            expr: Box::new(Tree::Hole),
            types: holes(types.len()),
        },
        Tree::FnExpr { name, .. } => Tree::FnExpr {
            name: unplaced_name(name),
            function: Box::new(Tree::Hole),
        },
        Tree::ClassExpr { name, .. } => Tree::ClassExpr {
            name: unplaced_name(name),
            class: Box::new(Tree::Hole),
        },
        Tree::Arrow { meta, params, types, .. } => Tree::Arrow {
            meta: unplaced_meta(meta),
            params: holes(params.len()),
            body: Box::new(Tree::Hole),
            types: holes(types.len()),
        },
        Tree::Function { meta, this_param, params, decorators, body, types } => Tree::Function {
            meta: unplaced_meta(meta),
            this_param: holes(this_param.len()),
            params: holes(params.len()),
            decorators: holes(decorators.len()),
            body: hole_if(body is Some),
            types: holes(types.len()),
        },
        Tree::Param { meta, decorators, .. } => Tree::Param {
            meta: unplaced_meta(meta),
            decorators: holes(decorators.len()),
            pat: Box::new(Tree::Hole),
        },
        Tree::FunctionBody { stmts, .. } => Tree::FunctionBody {
            span: placed_nowhere(),
            stmts: holes(stmts.len()),
        },
        Tree::Constructor { meta, params, body, .. } => Tree::Constructor {
            meta: unplaced_meta(meta),
            key: Box::new(Tree::Hole),
            params: holes(params.len()),
            body: hole_if(body is Some),
        },
        Tree::Field { meta, value, types, decorators, .. } => Tree::Field {
            meta: unplaced_meta(meta),
            key: Box::new(Tree::Hole),
            value: hole_if(value is Some),
            types: holes(types.len()),
            decorators: holes(decorators.len()),
        },
        Tree::StaticBlock { .. } => Tree::StaticBlock {
            span: placed_nowhere(),
            body: Box::new(Tree::Hole),
        },
        Tree::Accessor { meta, .. } => Tree::Accessor {
            meta: unplaced_meta(meta),
            key: Box::new(Tree::Hole),
            function: Box::new(Tree::Hole),
        },
        Tree::PatIdent { ident, types } => Tree::PatIdent {
            ident: unplaced_ident(ident),
            types: holes(types.len()),
        },
        Tree::PatArray { meta, elems, types } => Tree::PatArray {
            meta: unplaced_meta(meta),
            elems: holes(elems.len()),
            types: holes(types.len()),
        },
        Tree::PatObject { meta, props, types } => Tree::PatObject {
            meta: unplaced_meta(meta),
            props: holes(props.len()),
            types: holes(types.len()),
        },
        Tree::PatAssign { .. } => Tree::PatAssign {
            span: placed_nowhere(),
            left: Box::new(Tree::Hole),
            right: Box::new(Tree::Hole),
        },
        Tree::PatRest { meta, types, .. } => Tree::PatRest {
            meta: unplaced_meta(meta),
            arg: Box::new(Tree::Hole),
            types: holes(types.len()),
        },
        Tree::PatProp { .. } => Tree::PatProp {
            key: Box::new(Tree::Hole),
            value: Box::new(Tree::Hole),
        },
        Tree::PatShorthand { ident, types, value, .. } => Tree::PatShorthand {
            span: placed_nowhere(),
            ident: unplaced_ident(ident),
            types: holes(types.len()),
            value: hole_if(value is Some),
        },
        Tree::ExprStmt { .. } => Tree::ExprStmt {
            span: placed_nowhere(),
            expr: Box::new(Tree::Hole),
        },
        Tree::VarDecl { meta, kind, decls } => Tree::VarDecl {
            meta: unplaced_meta(meta),
            kind,
            decls: holes(decls.len()),
        },
        Tree::Declarator { meta, init, .. } => Tree::Declarator {
            meta: unplaced_meta(meta),
            name: Box::new(Tree::Hole),
            init: hole_if(init is Some),
        },
        Tree::FnDecl { meta, ident, .. } => Tree::FnDecl {
            meta: unplaced_meta(meta),
            ident: unplaced_ident(ident),
            function: Box::new(Tree::Hole),
        },
        Tree::ClassDecl { meta, ident, .. } => Tree::ClassDecl {
            meta: unplaced_meta(meta),
            ident: unplaced_ident(ident),
            class: Box::new(Tree::Hole),
        },
        Tree::Block { meta, stmts } => Tree::Block {
            meta: unplaced_meta(meta),
            stmts: holes(stmts.len()),
        },
        Tree::SwitchCase { test, cons, .. } => Tree::SwitchCase {
            span: placed_nowhere(),
            test: hole_if(test is Some),
            cons: holes(cons.len()),
        },
        Tree::With { .. } => Tree::With {
            span: placed_nowhere(),
            obj: Box::new(Tree::Hole),
            body: Box::new(Tree::Hole),
        },
        Tree::ForEach { meta, .. } => Tree::ForEach {
            meta: unplaced_meta(meta),
            left: Box::new(Tree::Hole),
            right: Box::new(Tree::Hole),
            body: Box::new(Tree::Hole),
        },
        Tree::Catch { param, .. } => Tree::Catch {
            span: placed_nowhere(),
            param: hole_if(param is Some),
            body: Box::new(Tree::Hole),
        },
        Tree::Import { meta, specifiers, rest } => Tree::Import {
            meta: unplaced_meta(meta),
            specifiers: holes(specifiers.len()),
            rest: holes(rest.len()),
        },
        Tree::Specifier { meta, kind, local, rest } => Tree::Specifier {
            meta: unplaced_meta(meta),
            kind,
            local: unplaced_ident(local),
            rest: holes(rest.len()),
        },
        Tree::Other { meta, children } => Tree::Other {
            meta: unplaced_meta(meta),
            children: holes(children.len()),
        },
    }
}

/// How many parts a part that may be missing is.
pub open spec fn count(part: Option<Box<Tree>>) -> nat {
    if part is Some {
        1
    } else {
        0
    }
}

/// The `n` parts from the index `from` on.
pub open spec fn run(parts: Seq<Tree>, from: nat, n: nat) -> Seq<Tree> {
    Seq::new(n, |i: int| parts[from + i])
}

/// The part at the index `at`, where it is not missing.
pub open spec fn found(part: Option<Box<Tree>>, parts: Seq<Tree>, at: nat) -> Option<Box<Tree>> {
    if part is Some {
        Some(Box::new(parts[at as int]))
    } else {
        None
    }
}

/// The piece of syntax that is `t` by itself and has these parts, in the order in which they
/// stand.
pub open spec fn filled(t: Tree, parts: Seq<Tree>) -> Tree {
    match t {
        Tree::Array { span, elems } => Tree::Array { span, elems: run(parts, 0, elems.len()) },
        Tree::Arg { spread, .. } => Tree::Arg { spread, expr: Box::new(parts[0]) },
        Tree::Call { span, ctxt, args, types, .. } => Tree::Call {
            span,
            ctxt,
            callee: Box::new(parts[0]),
            args: run(parts, 1, args.len()),
            types: run(parts, 1 + args.len(), types.len()),
        },
        Tree::Member { span, .. } => Tree::Member {
            span,
            obj: Box::new(parts[0]),
            prop: Box::new(parts[1]),
        },
        Tree::Computed { span, .. } => Tree::Computed { span, expr: Box::new(parts[0]) },
        Tree::SuperProp { meta, .. } => Tree::SuperProp { meta, prop: Box::new(parts[0]) },
        Tree::OptChain { span, optional, .. } => Tree::OptChain {
            span,
            optional,
            base: Box::new(parts[0]),
        },
        Tree::Assign { span, op, .. } => Tree::Assign {
            span,
            op,
            left: Box::new(parts[0]),
            right: Box::new(parts[1]),
        },
        Tree::Update { meta, .. } => Tree::Update { meta, arg: Box::new(parts[0]) },
        Tree::Unary { span, op, .. } => Tree::Unary { span, op, arg: Box::new(parts[0]) },
        Tree::Bin { span, op, .. } => Tree::Bin {
            span,
            op,
            left: Box::new(parts[0]),
            right: Box::new(parts[1]),
        },
        Tree::Paren { span, .. } => Tree::Paren { span, expr: Box::new(parts[0]) },
        Tree::Typed { kind, span, types, .. } => Tree::Typed {
            kind,
            span,
            expr: Box::new(parts[0]),
            types: run(parts, 1, types.len()),
        },
        Tree::FnExpr { name, .. } => Tree::FnExpr { name, function: Box::new(parts[0]) },
        Tree::ClassExpr { name, .. } => Tree::ClassExpr { name, class: Box::new(parts[0]) },
        Tree::Arrow { meta, params, types, .. } => Tree::Arrow {
            meta,
            params: run(parts, 0, params.len()),
            body: Box::new(parts[(params.len()) as int]),
            types: run(parts, 1 + params.len(), types.len()),
        },
        Tree::Function { meta, this_param, params, decorators, body, types } => Tree::Function {
            meta,
            this_param: run(parts, 0, this_param.len()),
            params: run(parts, this_param.len(), params.len()),
            decorators: run(parts, this_param.len() + params.len(), decorators.len()),
            body: found(body, parts, this_param.len() + params.len() + decorators.len()),
            types: run(
                parts,
                this_param.len() + params.len() + decorators.len() + count(body),
                types.len(),
            ),
        },
        Tree::Param { meta, decorators, .. } => Tree::Param {
            meta,
            decorators: run(parts, 0, decorators.len()),
            pat: Box::new(parts[(decorators.len()) as int]),
        },
        Tree::FunctionBody { span, stmts } => Tree::FunctionBody {
            span,
            stmts: run(parts, 0, stmts.len()),
        },
        Tree::Constructor { meta, params, body, .. } => Tree::Constructor {
            meta,
            key: Box::new(parts[0]),
            params: run(parts, 1, params.len()),
            body: found(body, parts, 1 + params.len()),
        },
        Tree::Field { meta, value, types, decorators, .. } => Tree::Field {
            meta,
            key: Box::new(parts[0]),
            value: found(value, parts, 1),
            types: run(parts, 1 + count(value), types.len()),
            decorators: run(parts, 1 + count(value) + types.len(), decorators.len()),
        },
        Tree::StaticBlock { span, .. } => Tree::StaticBlock { span, body: Box::new(parts[0]) },
        Tree::Accessor { meta, .. } => Tree::Accessor {
            meta,
            key: Box::new(parts[0]),
            function: Box::new(parts[1]),
        },
        Tree::PatIdent { ident, types } => Tree::PatIdent {
            ident,
            types: run(parts, 0, types.len()),
        },
        Tree::PatArray { meta, elems, types } => Tree::PatArray {
            meta,
            elems: run(parts, 0, elems.len()),
            types: run(parts, elems.len(), types.len()),
        },
        Tree::PatObject { meta, props, types } => Tree::PatObject {
            meta,
            props: run(parts, 0, props.len()),
            types: run(parts, props.len(), types.len()),
        },
        Tree::PatAssign { span, .. } => Tree::PatAssign {
            span,
            left: Box::new(parts[0]),
            right: Box::new(parts[1]),
        },
        Tree::PatRest { meta, types, .. } => Tree::PatRest {
            meta,
            arg: Box::new(parts[0]),
            types: run(parts, 1, types.len()),
        },
        Tree::PatProp { .. } => Tree::PatProp {
            key: Box::new(parts[0]),
            value: Box::new(parts[1]),
        },
        Tree::PatShorthand { span, ident, types, value } => Tree::PatShorthand {
            span,
            ident,
            types: run(parts, 0, types.len()),
            value: found(value, parts, types.len()),
        },
        Tree::ExprStmt { span, .. } => Tree::ExprStmt { span, expr: Box::new(parts[0]) },
        Tree::VarDecl { meta, kind, decls } => Tree::VarDecl {
            meta,
            kind,
            decls: run(parts, 0, decls.len()),
        },
        Tree::Declarator { meta, init, .. } => Tree::Declarator {
            meta,
            name: Box::new(parts[0]),
            init: found(init, parts, 1),
        },
        Tree::FnDecl { meta, ident, .. } => Tree::FnDecl {
            meta,
            ident,
            function: Box::new(parts[0]),
        },
        Tree::ClassDecl { meta, ident, .. } => Tree::ClassDecl {
            meta,
            ident,
            class: Box::new(parts[0]),
        },
        Tree::Block { meta, stmts } => Tree::Block { meta, stmts: run(parts, 0, stmts.len()) },
        Tree::SwitchCase { span, test, cons } => Tree::SwitchCase {
            span,
            test: found(test, parts, 0),
            cons: run(parts, count(test), cons.len()),
        },
        Tree::With { span, .. } => Tree::With {
            span,
            obj: Box::new(parts[0]),
            body: Box::new(parts[1]),
        },
        Tree::ForEach { meta, .. } => Tree::ForEach {
            meta,
            left: Box::new(parts[0]),
            right: Box::new(parts[1]),
            body: Box::new(parts[2]),
        },
        Tree::Catch { span, param, .. } => Tree::Catch {
            span,
            param: found(param, parts, 0),
            body: Box::new(parts[(count(param)) as int]),
        },
        Tree::Import { meta, specifiers, rest } => Tree::Import {
            meta,
            specifiers: run(parts, 0, specifiers.len()),
            rest: run(parts, specifiers.len(), rest.len()),
        },
        Tree::Specifier { meta, kind, local, rest } => Tree::Specifier {
            meta,
            kind,
            local,
            rest: run(parts, 0, rest.len()),
        },
        Tree::Other { meta, children } => Tree::Other {
            meta,
            children: run(parts, 0, children.len()),
        },
        _ => t,
    }
}

proof fn lemma_run(list: Seq<Tree>, parts: Seq<Tree>, from: nat)
    requires
        forall|k: int| 0 <= k < list.len() ==> #[trigger] list[k] == parts[from + k],
    ensures
        run(parts, from, holes(list.len()).len()) == list,
{
    assert(run(parts, from, holes(list.len()).len()) =~= list);
}

/// A piece of syntax is what it is by itself, and its parts in their order: none of them is
/// left out.
pub proof fn law_syntax_is_itself_and_its_parts(t: Tree)
    ensures
        filled(shell(t), children_of(t)) == t,
{
    let parts = children_of(t);
    match t {
        Tree::Array { elems, .. } => {
            lemma_run(elems, parts, 0);
        },
        Tree::Call { args, types, .. } => {
            lemma_run(args, parts, 1);
            lemma_run(types, parts, 1 + args.len());
        },
        Tree::Typed { types, .. } => {
            lemma_run(types, parts, 1);
        },
        Tree::Arrow { params, types, .. } => {
            lemma_run(params, parts, 0);
            lemma_run(types, parts, 1 + params.len());
        },
        Tree::Function { this_param, params, decorators, body, types, .. } => {
            lemma_run(this_param, parts, 0);
            lemma_run(params, parts, this_param.len());
            lemma_run(decorators, parts, this_param.len() + params.len());
            let at = this_param.len() + params.len() + decorators.len();
            assert(body is Some ==> parts[at as int] == *body->0);
            lemma_run(
                types,
                parts,
                this_param.len() + params.len() + decorators.len() + count(body),
            );
        },
        Tree::Param { decorators, .. } => {
            lemma_run(decorators, parts, 0);
        },
        Tree::FunctionBody { stmts, .. } => {
            lemma_run(stmts, parts, 0);
        },
        Tree::Constructor { params, body, .. } => {
            lemma_run(params, parts, 1);
            assert(body is Some ==> parts[(1 + params.len()) as int] == *body->0);
        },
        Tree::Field { value, types, decorators, .. } => {
            assert(value is Some ==> parts[1] == *value->0);
            lemma_run(types, parts, 1 + count(value));
            lemma_run(decorators, parts, 1 + count(value) + types.len());
        },
        Tree::PatIdent { types, .. } => {
            lemma_run(types, parts, 0);
        },
        Tree::PatArray { elems, types, .. } => {
            lemma_run(elems, parts, 0);
            lemma_run(types, parts, elems.len());
        },
        Tree::PatObject { props, types, .. } => {
            lemma_run(props, parts, 0);
            lemma_run(types, parts, props.len());
        },
        Tree::PatRest { types, .. } => {
            lemma_run(types, parts, 1);
        },
        Tree::PatShorthand { types, value, .. } => {
            lemma_run(types, parts, 0);
            assert(value is Some ==> parts[(types.len()) as int] == *value->0);
        },
        Tree::VarDecl { decls, .. } => {
            lemma_run(decls, parts, 0);
        },
        Tree::Declarator { init, .. } => {
            assert(init is Some ==> parts[1] == *init->0);
        },
        Tree::Block { stmts, .. } => {
            lemma_run(stmts, parts, 0);
        },
        Tree::SwitchCase { test, cons, .. } => {
            assert(test is Some ==> parts[0] == *test->0);
            lemma_run(cons, parts, count(test));
        },
        Tree::Catch { param, .. } => {
            assert(param is Some ==> parts[0] == *param->0);
        },
        Tree::Import { specifiers, rest, .. } => {
            lemma_run(specifiers, parts, 0);
            lemma_run(rest, parts, specifiers.len());
        },
        Tree::Specifier { rest, .. } => {
            lemma_run(rest, parts, 0);
        },
        Tree::Other { children, .. } => {
            lemma_run(children, parts, 0);
        },
        _ => {},
    }
}

proof fn lemma_placeless_concat(a: Seq<Tree>, b: Seq<Tree>)
    ensures
        placeless_list(a + b) == placeless_list(a) + placeless_list(b),
{
    lemma_placeless_list(a);
    lemma_placeless_list(b);
    lemma_placeless_list(a + b);
    assert(placeless_list(a + b) =~= placeless_list(a) + placeless_list(b));
}

/// The parts of a piece of syntax lose their positions one by one, and so does the piece
/// itself.
proof fn lemma_placeless_parts(t: Tree)
    ensures
        shell(placeless(t)) == form(t),
        children_of(placeless(t)) == placeless_list(children_of(t)),
{
    let parts = children_of(t);
    lemma_placeless_list(parts);
    match t {
        Tree::Array { elems, .. } => {
            lemma_placeless_list(elems);
            assert(children_of(placeless(t)) =~= placeless_list(parts));
        },
        Tree::Arg { .. } => {
            assert(children_of(placeless(t)) =~= placeless_list(parts));
        },
        Tree::Call { args, types, .. } => {
            lemma_placeless_list(args);
            lemma_placeless_list(types);
            assert(children_of(placeless(t)) =~= placeless_list(parts));
        },
        Tree::Member { .. } => {
            assert(children_of(placeless(t)) =~= placeless_list(parts));
        },
        Tree::Computed { .. } => {
            assert(children_of(placeless(t)) =~= placeless_list(parts));
        },
        Tree::SuperProp { .. } => {
            assert(children_of(placeless(t)) =~= placeless_list(parts));
        },
        Tree::OptChain { .. } => {
            assert(children_of(placeless(t)) =~= placeless_list(parts));
        },
        Tree::Assign { .. } => {
            assert(children_of(placeless(t)) =~= placeless_list(parts));
        },
        Tree::Update { .. } => {
            assert(children_of(placeless(t)) =~= placeless_list(parts));
        },
        Tree::Unary { .. } => {
            assert(children_of(placeless(t)) =~= placeless_list(parts));
        },
        Tree::Bin { .. } => {
            assert(children_of(placeless(t)) =~= placeless_list(parts));
        },
        Tree::Paren { .. } => {
            assert(children_of(placeless(t)) =~= placeless_list(parts));
        },
        Tree::Typed { types, .. } => {
            lemma_placeless_list(types);
            assert(children_of(placeless(t)) =~= placeless_list(parts));
        },
        Tree::FnExpr { .. } => {
            assert(children_of(placeless(t)) =~= placeless_list(parts));
        },
        Tree::ClassExpr { .. } => {
            assert(children_of(placeless(t)) =~= placeless_list(parts));
        },
        Tree::Arrow { params, types, .. } => {
            lemma_placeless_list(params);
            lemma_placeless_list(types);
            assert(children_of(placeless(t)) =~= placeless_list(parts));
        },
        Tree::Function { this_param, params, decorators, body, types, .. } => {
            let ahead = this_param + params + decorators;
            lemma_placeless_concat(this_param, params);
            lemma_placeless_concat(this_param + params, decorators);
            lemma_placeless_concat(ahead, opt_part(body));
            lemma_placeless_concat(ahead + opt_part(body), types);
            lemma_placeless_list(opt_part(body));
            assert(opt_part(placeless_opt(body)) =~= placeless_list(opt_part(body)));
            assert(children_of(placeless(t)) =~= placeless_list(parts));
            lemma_placeless_list(this_param);
            lemma_placeless_list(params);
            lemma_placeless_list(decorators);
            lemma_placeless_list(types);
        },
        Tree::Param { decorators, .. } => {
            lemma_placeless_list(decorators);
            assert(children_of(placeless(t)) =~= placeless_list(parts));
        },
        Tree::FunctionBody { stmts, .. } => {
            lemma_placeless_list(stmts);
            assert(children_of(placeless(t)) =~= placeless_list(parts));
        },
        Tree::Constructor { key, params, body, .. } => {
            lemma_placeless_list(seq![*key]);
            lemma_placeless_list(params);
            lemma_placeless_list(opt_part(body));
            lemma_placeless_concat(seq![*key], params);
            lemma_placeless_concat(seq![*key] + params, opt_part(body));
            assert(placeless_list(seq![*key]) =~= seq![placeless(*key)]);
            assert(opt_part(placeless_opt(body)) =~= placeless_list(opt_part(body)));
        },
        Tree::Field { key, value, types, decorators, .. } => {
            lemma_placeless_list(seq![*key]);
            lemma_placeless_list(opt_part(value));
            lemma_placeless_list(types);
            lemma_placeless_list(decorators);
            lemma_placeless_concat(seq![*key], opt_part(value));
            lemma_placeless_concat(seq![*key] + opt_part(value), types);
            lemma_placeless_concat(seq![*key] + opt_part(value) + types, decorators);
            assert(placeless_list(seq![*key]) =~= seq![placeless(*key)]);
            assert(opt_part(placeless_opt(value)) =~= placeless_list(opt_part(value)));
        },
        Tree::StaticBlock { .. } => {
            assert(children_of(placeless(t)) =~= placeless_list(parts));
        },
        Tree::Accessor { .. } => {
            assert(children_of(placeless(t)) =~= placeless_list(parts));
        },
        Tree::PatIdent { types, .. } => {
            lemma_placeless_list(types);
            assert(children_of(placeless(t)) =~= placeless_list(parts));
        },
        Tree::PatArray { elems, types, .. } => {
            lemma_placeless_list(elems);
            lemma_placeless_list(types);
            assert(children_of(placeless(t)) =~= placeless_list(parts));
        },
        Tree::PatObject { props, types, .. } => {
            lemma_placeless_list(props);
            lemma_placeless_list(types);
            assert(children_of(placeless(t)) =~= placeless_list(parts));
        },
        Tree::PatAssign { .. } => {
            assert(children_of(placeless(t)) =~= placeless_list(parts));
        },
        Tree::PatRest { types, .. } => {
            lemma_placeless_list(types);
            assert(children_of(placeless(t)) =~= placeless_list(parts));
        },
        Tree::PatProp { .. } => {
            assert(children_of(placeless(t)) =~= placeless_list(parts));
        },
        Tree::PatShorthand { types, value, .. } => {
            lemma_placeless_list(types);
            lemma_placeless_list(opt_part(value));
            lemma_placeless_concat(types, opt_part(value));
            assert(opt_part(placeless_opt(value)) =~= placeless_list(opt_part(value)));
        },
        Tree::ExprStmt { .. } => {
            assert(children_of(placeless(t)) =~= placeless_list(parts));
        },
        Tree::VarDecl { decls, .. } => {
            lemma_placeless_list(decls);
            assert(children_of(placeless(t)) =~= placeless_list(parts));
        },
        Tree::Declarator { name, init, .. } => {
            lemma_placeless_list(seq![*name]);
            lemma_placeless_list(opt_part(init));
            lemma_placeless_concat(seq![*name], opt_part(init));
            assert(placeless_list(seq![*name]) =~= seq![placeless(*name)]);
            assert(opt_part(placeless_opt(init)) =~= placeless_list(opt_part(init)));
        },
        Tree::FnDecl { .. } => {
            assert(children_of(placeless(t)) =~= placeless_list(parts));
        },
        Tree::ClassDecl { .. } => {
            assert(children_of(placeless(t)) =~= placeless_list(parts));
        },
        Tree::Block { stmts, .. } => {
            lemma_placeless_list(stmts);
            assert(children_of(placeless(t)) =~= placeless_list(parts));
        },
        Tree::SwitchCase { test, cons, .. } => {
            lemma_placeless_list(opt_part(test));
            lemma_placeless_list(cons);
            lemma_placeless_concat(opt_part(test), cons);
            assert(opt_part(placeless_opt(test)) =~= placeless_list(opt_part(test)));
        },
        Tree::With { .. } => {
            assert(children_of(placeless(t)) =~= placeless_list(parts));
        },
        Tree::ForEach { .. } => {
            assert(children_of(placeless(t)) =~= placeless_list(parts));
        },
        Tree::Catch { param, body, .. } => {
            lemma_placeless_list(opt_part(param));
            lemma_placeless_list(seq![*body]);
            lemma_placeless_concat(opt_part(param), seq![*body]);
            assert(opt_part(placeless_opt(param)) =~= placeless_list(opt_part(param)));
            assert(placeless_list(seq![*body]) =~= seq![placeless(*body)]);
        },
        Tree::Import { specifiers, rest, .. } => {
            lemma_placeless_list(specifiers);
            lemma_placeless_list(rest);
            assert(children_of(placeless(t)) =~= placeless_list(parts));
        },
        Tree::Specifier { rest, .. } => {
            lemma_placeless_list(rest);
            assert(children_of(placeless(t)) =~= placeless_list(parts));
        },
        Tree::Other { children, .. } => {
            lemma_placeless_list(children);
            assert(children_of(placeless(t)) =~= placeless_list(parts));
        },
        _ => {
            assert(children_of(placeless(t)) =~= placeless_list(parts));
        },
    }
}

/// Two pieces of syntax are structurally equal if and only if they are the same by
/// themselves, but for their positions, and their parts are structurally equal one by one.
pub proof fn law_structural_equality(a: Tree, b: Tree)
    ensures
        placeless(a) == placeless(b) <==> {
            &&& form(a) == form(b)
            &&& children_of(a).len() == children_of(b).len()
            &&& forall|i: int|
                0 <= i < children_of(a).len() ==> placeless(#[trigger] children_of(a)[i])
                    == placeless(children_of(b)[i])
        },
{
    let xs = children_of(a);
    let ys = children_of(b);
    lemma_placeless_parts(a);
    lemma_placeless_parts(b);
    lemma_placeless_list(xs);
    lemma_placeless_list(ys);
    if placeless(a) == placeless(b) {
        assert forall|i: int| 0 <= i < xs.len() implies placeless(#[trigger] xs[i]) == placeless(
            ys[i],
        ) by {
            assert(placeless_list(xs)[i] == placeless_list(ys)[i]);
        }
    }
    if form(a) == form(b) && xs.len() == ys.len() && (forall|i: int|
        0 <= i < xs.len() ==> placeless(#[trigger] xs[i]) == placeless(ys[i])) {
        assert(placeless_list(xs) =~= placeless_list(ys));
        law_syntax_is_itself_and_its_parts(placeless(a));
        law_syntax_is_itself_and_its_parts(placeless(b));
    }
}

/// `list` are the values of these nodes, one by one.
pub open spec fn values(list: Seq<Tree>, nodes: Seq<Node>) -> bool {
    list.len() == nodes.len() && forall|i: int|
        0 <= i < nodes.len() ==> list[i] == (#[trigger] nodes[i])@
}

/// `part` is the value of this node, or missing as it is.
pub open spec fn value_if(part: Option<Box<Tree>>, node: Option<Box<Node>>) -> bool {
    match (part, node) {
        (Some(part), Some(node)) => *part == node@,
        (None, None) => true,
        _ => false,
    }
}

/// `name` is the value of this identifier, or missing as it is.
pub open spec fn name_if(name: Option<IdentView>, ident: Option<Ident>) -> bool {
    match (name, ident) {
        (Some(name), Some(ident)) => name == ident@,
        (None, None) => true,
        _ => false,
    }
}

proof fn lemma_values(nodes: Seq<Node>)
    ensures
        values(trees(nodes), nodes),
{
}

proof fn lemma_value_if(node: Option<Box<Node>>)
    ensures
        value_if(opt_tree(node), node),
{
}

/// The value of a node holds all that the node holds: nodes that differ in anything have
/// different values.
pub proof fn law_values_hold_all(n: Node)
    ensures
        match n {
            Node::Ident { ident } => {
                &&& n@ matches Tree::Ident { ident: now_ident }
                &&& now_ident == ident@
            },
            Node::This { span } => n@ matches Tree::This { span: now_span } && now_span == span,
            Node::Num { meta, bits } => {
                &&& n@ matches Tree::Num { meta: now_meta, bits: now_bits }
                &&& now_meta == meta
                &&& now_bits == bits
            },
            Node::Null { span } => n@ matches Tree::Null { span: now_span } && now_span == span,
            Node::Array { span, elems } => {
                &&& n@ matches Tree::Array { span: now_span, elems: now_elems }
                &&& now_span == span
                &&& values(now_elems, elems@)
            },
            Node::Hole => n@ is Hole,
            Node::Arg { spread, expr } => {
                &&& n@ matches Tree::Arg { spread: now_spread, expr: now_expr }
                &&& now_spread == spread
                &&& *now_expr == expr@
            },
            Node::Call { span, ctxt, callee, args, types } => {
                &&& n@ matches Tree::Call {
                    span: now_span,
                    ctxt: now_ctxt,
                    callee: now_callee,
                    args: now_args,
                    types: now_types,
                }
                &&& now_span == span
                &&& now_ctxt == ctxt
                &&& *now_callee == callee@
                &&& values(now_args, args@)
                &&& values(now_types, types@)
            },
            Node::Member { span, obj, prop } => {
                &&& n@ matches Tree::Member { span: now_span, obj: now_obj, prop: now_prop }
                &&& now_span == span
                &&& *now_obj == obj@
                &&& *now_prop == prop@
            },
            Node::PropIdent { span, sym } => {
                &&& n@ matches Tree::PropIdent { span: now_span, sym: now_sym }
                &&& now_span == span
                &&& now_sym == sym@
            },
            Node::Computed { span, expr } => {
                &&& n@ matches Tree::Computed { span: now_span, expr: now_expr }
                &&& now_span == span
                &&& *now_expr == expr@
            },
            Node::SuperProp { meta, prop } => {
                &&& n@ matches Tree::SuperProp { meta: now_meta, prop: now_prop }
                &&& now_meta == meta
                &&& *now_prop == prop@
            },
            Node::OptChain { span, optional, base } => {
                &&& n@ matches Tree::OptChain {
                    span: now_span,
                    optional: now_optional,
                    base: now_base,
                }
                &&& now_span == span
                &&& now_optional == optional
                &&& *now_base == base@
            },
            Node::Assign { span, op, left, right } => {
                &&& n@ matches Tree::Assign {
                    span: now_span,
                    op: now_op,
                    left: now_left,
                    right: now_right,
                }
                &&& now_span == span
                &&& now_op == op
                &&& *now_left == left@
                &&& *now_right == right@
            },
            Node::Update { meta, arg } => {
                &&& n@ matches Tree::Update { meta: now_meta, arg: now_arg }
                &&& now_meta == meta
                &&& *now_arg == arg@
            },
            Node::Unary { span, op, arg } => {
                &&& n@ matches Tree::Unary { span: now_span, op: now_op, arg: now_arg }
                &&& now_span == span
                &&& now_op == op
                &&& *now_arg == arg@
            },
            Node::Bin { span, op, left, right } => {
                &&& n@ matches Tree::Bin {
                    span: now_span,
                    op: now_op,
                    left: now_left,
                    right: now_right,
                }
                &&& now_span == span
                &&& now_op == op
                &&& *now_left == left@
                &&& *now_right == right@
            },
            Node::Paren { span, expr } => {
                &&& n@ matches Tree::Paren { span: now_span, expr: now_expr }
                &&& now_span == span
                &&& *now_expr == expr@
            },
            Node::Typed { kind, span, expr, types } => {
                &&& n@ matches Tree::Typed {
                    kind: now_kind,
                    span: now_span,
                    expr: now_expr,
                    types: now_types,
                }
                &&& now_kind == kind
                &&& now_span == span
                &&& *now_expr == expr@
                &&& values(now_types, types@)
            },
            Node::FnExpr { name, function } => {
                &&& n@ matches Tree::FnExpr { name: now_name, function: now_function }
                &&& name_if(now_name, name)
                &&& *now_function == function@
            },
            Node::ClassExpr { name, class } => {
                &&& n@ matches Tree::ClassExpr { name: now_name, class: now_class }
                &&& name_if(now_name, name)
                &&& *now_class == class@
            },
            Node::Arrow { meta, params, body, types } => {
                &&& n@ matches Tree::Arrow {
                    meta: now_meta,
                    params: now_params,
                    body: now_body,
                    types: now_types,
                }
                &&& now_meta == meta
                &&& values(now_params, params@)
                &&& *now_body == body@
                &&& values(now_types, types@)
            },
            Node::Function { meta, this_param, params, decorators, body, types } => {
                &&& n@ matches Tree::Function {
                    meta: now_meta,
                    this_param: now_this_param,
                    params: now_params,
                    decorators: now_decorators,
                    body: now_body,
                    types: now_types,
                }
                &&& now_meta == meta
                &&& values(now_this_param, this_param@)
                &&& values(now_params, params@)
                &&& values(now_decorators, decorators@)
                &&& value_if(now_body, body)
                &&& values(now_types, types@)
            },
            Node::Param { meta, decorators, pat } => {
                &&& n@ matches Tree::Param {
                    meta: now_meta,
                    decorators: now_decorators,
                    pat: now_pat,
                }
                &&& now_meta == meta
                &&& values(now_decorators, decorators@)
                &&& *now_pat == pat@
            },
            Node::FunctionBody { span, stmts } => {
                &&& n@ matches Tree::FunctionBody { span: now_span, stmts: now_stmts }
                &&& now_span == span
                &&& values(now_stmts, stmts@)
            },
            Node::Constructor { meta, key, params, body } => {
                &&& n@ matches Tree::Constructor {
                    meta: now_meta,
                    key: now_key,
                    params: now_params,
                    body: now_body,
                }
                &&& now_meta == meta
                &&& *now_key == key@
                &&& values(now_params, params@)
                &&& value_if(now_body, body)
            },
            Node::Field { meta, key, value, types, decorators } => {
                &&& n@ matches Tree::Field {
                    meta: now_meta,
                    key: now_key,
                    value: now_value,
                    types: now_types,
                    decorators: now_decorators,
                }
                &&& now_meta == meta
                &&& *now_key == key@
                &&& value_if(now_value, value)
                &&& values(now_types, types@)
                &&& values(now_decorators, decorators@)
            },
            Node::StaticBlock { span, body } => {
                &&& n@ matches Tree::StaticBlock { span: now_span, body: now_body }
                &&& now_span == span
                &&& *now_body == body@
            },
            Node::Accessor { meta, key, function } => {
                &&& n@ matches Tree::Accessor {
                    meta: now_meta,
                    key: now_key,
                    function: now_function,
                }
                &&& now_meta == meta
                &&& *now_key == key@
                &&& *now_function == function@
            },
            Node::PatIdent { ident, types } => {
                &&& n@ matches Tree::PatIdent { ident: now_ident, types: now_types }
                &&& now_ident == ident@
                &&& values(now_types, types@)
            },
            Node::PatArray { meta, elems, types } => {
                &&& n@ matches Tree::PatArray {
                    meta: now_meta,
                    elems: now_elems,
                    types: now_types,
                }
                &&& now_meta == meta
                &&& values(now_elems, elems@)
                &&& values(now_types, types@)
            },
            Node::PatObject { meta, props, types } => {
                &&& n@ matches Tree::PatObject {
                    meta: now_meta,
                    props: now_props,
                    types: now_types,
                }
                &&& now_meta == meta
                &&& values(now_props, props@)
                &&& values(now_types, types@)
            },
            Node::PatAssign { span, left, right } => {
                &&& n@ matches Tree::PatAssign { span: now_span, left: now_left, right: now_right }
                &&& now_span == span
                &&& *now_left == left@
                &&& *now_right == right@
            },
            Node::PatRest { meta, arg, types } => {
                &&& n@ matches Tree::PatRest { meta: now_meta, arg: now_arg, types: now_types }
                &&& now_meta == meta
                &&& *now_arg == arg@
                &&& values(now_types, types@)
            },
            Node::PatProp { key, value } => {
                &&& n@ matches Tree::PatProp { key: now_key, value: now_value }
                &&& *now_key == key@
                &&& *now_value == value@
            },
            Node::PatShorthand { span, ident, types, value } => {
                &&& n@ matches Tree::PatShorthand {
                    span: now_span,
                    ident: now_ident,
                    types: now_types,
                    value: now_value,
                }
                &&& now_span == span
                &&& now_ident == ident@
                &&& values(now_types, types@)
                &&& value_if(now_value, value)
            },
            Node::ExprStmt { span, expr } => {
                &&& n@ matches Tree::ExprStmt { span: now_span, expr: now_expr }
                &&& now_span == span
                &&& *now_expr == expr@
            },
            Node::VarDecl { meta, kind, decls } => {
                &&& n@ matches Tree::VarDecl { meta: now_meta, kind: now_kind, decls: now_decls }
                &&& now_meta == meta
                &&& now_kind == kind
                &&& values(now_decls, decls@)
            },
            Node::Declarator { meta, name, init } => {
                &&& n@ matches Tree::Declarator { meta: now_meta, name: now_name, init: now_init }
                &&& now_meta == meta
                &&& *now_name == name@
                &&& value_if(now_init, init)
            },
            Node::FnDecl { meta, ident, function } => {
                &&& n@ matches Tree::FnDecl {
                    meta: now_meta,
                    ident: now_ident,
                    function: now_function,
                }
                &&& now_meta == meta
                &&& now_ident == ident@
                &&& *now_function == function@
            },
            Node::ClassDecl { meta, ident, class } => {
                &&& n@ matches Tree::ClassDecl {
                    meta: now_meta,
                    ident: now_ident,
                    class: now_class,
                }
                &&& now_meta == meta
                &&& now_ident == ident@
                &&& *now_class == class@
            },
            Node::Block { meta, stmts } => {
                &&& n@ matches Tree::Block { meta: now_meta, stmts: now_stmts }
                &&& now_meta == meta
                &&& values(now_stmts, stmts@)
            },
            Node::SwitchCase { span, test, cons } => {
                &&& n@ matches Tree::SwitchCase { span: now_span, test: now_test, cons: now_cons }
                &&& now_span == span
                &&& value_if(now_test, test)
                &&& values(now_cons, cons@)
            },
            Node::With { span, obj, body } => {
                &&& n@ matches Tree::With { span: now_span, obj: now_obj, body: now_body }
                &&& now_span == span
                &&& *now_obj == obj@
                &&& *now_body == body@
            },
            Node::ForEach { meta, left, right, body } => {
                &&& n@ matches Tree::ForEach {
                    meta: now_meta,
                    left: now_left,
                    right: now_right,
                    body: now_body,
                }
                &&& now_meta == meta
                &&& *now_left == left@
                &&& *now_right == right@
                &&& *now_body == body@
            },
            Node::Catch { span, param, body } => {
                &&& n@ matches Tree::Catch { span: now_span, param: now_param, body: now_body }
                &&& now_span == span
                &&& value_if(now_param, param)
                &&& *now_body == body@
            },
            Node::Import { meta, specifiers, rest } => {
                &&& n@ matches Tree::Import {
                    meta: now_meta,
                    specifiers: now_specifiers,
                    rest: now_rest,
                }
                &&& now_meta == meta
                &&& values(now_specifiers, specifiers@)
                &&& values(now_rest, rest@)
            },
            Node::Specifier { meta, kind, local, rest } => {
                &&& n@ matches Tree::Specifier {
                    meta: now_meta,
                    kind: now_kind,
                    local: now_local,
                    rest: now_rest,
                }
                &&& now_meta == meta
                &&& now_kind == kind
                &&& now_local == local@
                &&& values(now_rest, rest@)
            },
            Node::Other { meta, children } => {
                &&& n@ matches Tree::Other { meta: now_meta, children: now_children }
                &&& now_meta == meta
                &&& values(now_children, children@)
            },
        },
{
    match n {
        Node::Array { elems, .. } => {
            lemma_values(elems@);
        },
        Node::Call { args, types, .. } => {
            lemma_values(args@);
            lemma_values(types@);
        },
        Node::Typed { types, .. } => {
            lemma_values(types@);
        },
        Node::Arrow { params, types, .. } => {
            lemma_values(params@);
            lemma_values(types@);
        },
        Node::Function { this_param, params, decorators, body, types, .. } => {
            lemma_values(this_param@);
            lemma_values(params@);
            lemma_values(decorators@);
            lemma_value_if(body);
            lemma_values(types@);
        },
        Node::Param { decorators, .. } => {
            lemma_values(decorators@);
        },
        Node::FunctionBody { stmts, .. } => {
            lemma_values(stmts@);
        },
        Node::Constructor { params, body, .. } => {
            lemma_values(params@);
            lemma_value_if(body);
        },
        Node::Field { value, types, decorators, .. } => {
            lemma_value_if(value);
            lemma_values(types@);
            lemma_values(decorators@);
        },
        Node::PatIdent { types, .. } => {
            lemma_values(types@);
        },
        Node::PatArray { elems, types, .. } => {
            lemma_values(elems@);
            lemma_values(types@);
        },
        Node::PatObject { props, types, .. } => {
            lemma_values(props@);
            lemma_values(types@);
        },
        Node::PatRest { types, .. } => {
            lemma_values(types@);
        },
        Node::PatShorthand { types, value, .. } => {
            lemma_values(types@);
            lemma_value_if(value);
        },
        Node::VarDecl { decls, .. } => {
            lemma_values(decls@);
        },
        Node::Declarator { init, .. } => {
            lemma_value_if(init);
        },
        Node::Block { stmts, .. } => {
            lemma_values(stmts@);
        },
        Node::SwitchCase { test, cons, .. } => {
            lemma_value_if(test);
            lemma_values(cons@);
        },
        Node::Catch { param, .. } => {
            lemma_value_if(param);
        },
        Node::Import { specifiers, rest, .. } => {
            lemma_values(specifiers@);
            lemma_values(rest@);
        },
        Node::Specifier { rest, .. } => {
            lemma_values(rest@);
        },
        Node::Other { children, .. } => {
            lemma_values(children@);
        },
        _ => {},
    }
}

/// The value of an identifier holds all that the identifier holds, and that of a module all
/// that the module holds.
pub proof fn law_other_values_hold_all(ident: Ident, module: Module)
    ensures
        ident@.sym == ident.sym@ && ident@.ctxt == ident.ctxt,
        ident@.span == ident.span && ident@.optional == ident.optional,
        module@.span == module.span,
        values(module@.body, module.body@),
{
}

/// The identifier that stands in syntax itself stands there without its parts as well, and
/// wherever one can stand it is that one.
pub proof fn law_own_identifiers(t: Tree)
    ensures
        own_ident(shell(t)) == own_ident(t),
        match t {
            Tree::Ident { ident } => own_ident(t) == Some(ident),
            Tree::PatIdent { ident, .. } => own_ident(t) == Some(ident),
            Tree::PatShorthand { ident, .. } => own_ident(t) == Some(ident),
            Tree::FnDecl { ident, .. } => own_ident(t) == Some(ident),
            Tree::ClassDecl { ident, .. } => own_ident(t) == Some(ident),
            Tree::Specifier { local, .. } => own_ident(t) == Some(local),
            Tree::FnExpr { name, .. } => own_ident(t) == name,
            Tree::ClassExpr { name, .. } => own_ident(t) == name,
            _ => own_ident(t) is None,
        },
{
}

} // verus!
