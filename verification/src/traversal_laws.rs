//! How the traversal goes about a piece of syntax, whatever the rule.
use vstd::prelude::*;

use crate::rewrite::{
    lemma_rewritten_list, rewritten, rewritten_list, rewritten_opt, rewritten_parts, Rewriting,
};
use crate::rewrite_laws::law_parts_rewritten;
use crate::syntax::{Span, Tree};
use crate::syntax_laws::{filled, law_syntax_is_itself_and_its_parts, shell};
use crate::walk::children_of;

verus! {

broadcast use lemma_rewritten_list;

/// A piece of syntax stays what it is by itself while its parts are rewritten.
pub proof fn law_syntax_stays_around_its_parts<R: Rewriting>(rule: R, state: bool, t: Tree)
    ensures
        shell(rewritten_parts(rule, state, t)) == shell(t),
{
    let parts = rewritten_parts(rule, state, t);
    match t {
        Tree::Array { elems, .. } => {
            assert(rewritten_list(rule, state, elems).len() == elems.len());
            assert(shell(parts) == shell(t));
        },
        Tree::Call { args, types, .. } => {
            assert(rewritten_list(rule, state, args).len() == args.len());
            assert(rewritten_list(rule, state, types).len() == types.len());
            assert(shell(parts) == shell(t));
        },
        Tree::Typed { types, .. } => {
            assert(rewritten_list(rule, state, types).len() == types.len());
            assert(shell(parts) == shell(t));
        },
        Tree::Arrow { params, types, .. } => {
            assert(rewritten_list(rule, state, params).len() == params.len());
            assert(rewritten_list(rule, state, types).len() == types.len());
            assert(shell(parts) == shell(t));
        },
        Tree::Function { this_param, params, decorators, body, types, .. } => {
            assert(rewritten_list(rule, state, this_param).len() == this_param.len());
            assert(rewritten_list(rule, state, params).len() == params.len());
            assert(rewritten_list(rule, state, decorators).len() == decorators.len());
            assert(rewritten_opt(rule, state, body) is Some <==> body is Some);
            assert(rewritten_list(rule, state, types).len() == types.len());
            assert(shell(parts) == shell(t));
        },
        Tree::Param { decorators, .. } => {
            assert(rewritten_list(rule, state, decorators).len() == decorators.len());
            assert(shell(parts) == shell(t));
        },
        Tree::FunctionBody { stmts, .. } => {
            assert(rewritten_list(rule, state, stmts).len() == stmts.len());
            assert(shell(parts) == shell(t));
        },
        Tree::Constructor { params, body, .. } => {
            assert(rewritten_list(rule, state, params).len() == params.len());
            assert(rewritten_opt(rule, state, body) is Some <==> body is Some);
            assert(shell(parts) == shell(t));
        },
        Tree::Field { value, types, decorators, .. } => {
            assert(rewritten_opt(rule, state, value) is Some <==> value is Some);
            assert(rewritten_list(rule, state, types).len() == types.len());
            assert(rewritten_list(rule, state, decorators).len() == decorators.len());
            assert(shell(parts) == shell(t));
        },
        Tree::PatIdent { types, .. } => {
            assert(rewritten_list(rule, state, types).len() == types.len());
            assert(shell(parts) == shell(t));
        },
        Tree::PatArray { elems, types, .. } => {
            assert(rewritten_list(rule, state, elems).len() == elems.len());
            assert(rewritten_list(rule, state, types).len() == types.len());
            assert(shell(parts) == shell(t));
        },
        Tree::PatObject { props, types, .. } => {
            assert(rewritten_list(rule, state, props).len() == props.len());
            assert(rewritten_list(rule, state, types).len() == types.len());
            assert(shell(parts) == shell(t));
        },
        Tree::PatRest { types, .. } => {
            assert(rewritten_list(rule, state, types).len() == types.len());
            assert(shell(parts) == shell(t));
        },
        Tree::PatShorthand { types, value, .. } => {
            assert(rewritten_list(rule, state, types).len() == types.len());
            assert(rewritten_opt(rule, state, value) is Some <==> value is Some);
            assert(shell(parts) == shell(t));
        },
        Tree::VarDecl { decls, .. } => {
            assert(rewritten_list(rule, state, decls).len() == decls.len());
            assert(shell(parts) == shell(t));
        },
        Tree::Declarator { init, .. } => {
            assert(rewritten_opt(rule, state, init) is Some <==> init is Some);
            assert(shell(parts) == shell(t));
        },
        Tree::Block { stmts, .. } => {
            assert(rewritten_list(rule, state, stmts).len() == stmts.len());
            assert(shell(parts) == shell(t));
        },
        Tree::SwitchCase { test, cons, .. } => {
            assert(rewritten_opt(rule, state, test) is Some <==> test is Some);
            assert(rewritten_list(rule, state, cons).len() == cons.len());
            assert(shell(parts) == shell(t));
        },
        Tree::Catch { param, .. } => {
            assert(rewritten_opt(rule, state, param) is Some <==> param is Some);
            assert(shell(parts) == shell(t));
        },
        Tree::Import { specifiers, rest, .. } => {
            assert(rewritten_list(rule, state, specifiers).len() == specifiers.len());
            assert(rewritten_list(rule, state, rest).len() == rest.len());
            assert(shell(parts) == shell(t));
        },
        Tree::Specifier { rest, .. } => {
            assert(rewritten_list(rule, state, rest).len() == rest.len());
            assert(shell(parts) == shell(t));
        },
        Tree::Other { children, .. } => {
            assert(rewritten_list(rule, state, children).len() == children.len());
            assert(shell(parts) == shell(t));
        },
        _ => {
            assert(shell(parts) == shell(t));
        },
    }
}

/// Syntax is rewritten from the inside out: its parts first, in the state inside it, and
/// then itself, in the state in which it stands.
pub proof fn law_inside_out<R: Rewriting>(rule: R, state: bool, t: Tree)
    requires
        !(t is With),
    ensures
        rewritten(rule, state, t) == rule.left(
            state,
            filled(
                shell(t),
                Seq::new(
                    children_of(t).len(),
                    |i: int| rewritten(rule, rule.entered(state, t), children_of(t)[i]),
                ),
            ),
        ),
{
    let inner = rule.entered(state, t);
    let parts = rewritten_parts(rule, inner, t);
    law_syntax_stays_around_its_parts(rule, inner, t);
    law_parts_rewritten(rule, inner, t);
    law_syntax_is_itself_and_its_parts(parts);
    assert(children_of(parts) =~= Seq::new(
        children_of(t).len(),
        |i: int| rewritten(rule, inner, children_of(t)[i]),
    ));
}

/// The object of a `with` statement is rewritten in the state inside the statement, and its
/// body in the state in the body of a `with` statement.
pub proof fn law_with_statement<R: Rewriting>(
    rule: R,
    state: bool,
    span: Span,
    obj: Tree,
    body: Tree,
)
    ensures
        ({
            let t = Tree::With { span, obj: Box::new(obj), body: Box::new(body) };
            let inner = rule.entered(state, t);
            rewritten(rule, state, t) == rule.left(
                state,
                Tree::With {
                    span,
                    obj: Box::new(rewritten(rule, inner, obj)),
                    body: Box::new(rewritten(rule, rule.entered_with(inner), body)),
                },
            )
        }),
{
}

/// A list is rewritten one by one, in its order.
pub proof fn law_list_one_by_one<R: Rewriting>(rule: R, state: bool, list: Seq<Tree>)
    ensures
        rewritten_list(rule, state, list) == Seq::new(
            list.len(),
            |i: int| rewritten(rule, state, list[i]),
        ),
{
    assert(rewritten_list(rule, state, list) =~= Seq::new(
        list.len(),
        |i: int| rewritten(rule, state, list[i]),
    ));
}

} // verus!
