//! Where direct calls of `eval` run, in the terms of the syntax alone.
use vstd::prelude::*;

use crate::direct_eval::{
    evals, module_evals, opt_evals, own_eval_scope, part_evals, some_evals,
};
use crate::forms::{bare, called, law_parentheses_come_off};
use crate::syntax::{ModuleView, Span, Tree};
use crate::walk::{children_of, opt_part, span_of};

verus! {

/// The parts of `t` that run in the scope in which `t` stands.
pub open spec fn parts_in_scope(t: Tree) -> Seq<Tree> {
    match t {
        Tree::Function { .. } => seq![],
        Tree::Arrow { .. } => seq![],
        Tree::StaticBlock { .. } => seq![],
        Tree::Constructor { key, .. } => seq![*key],
        Tree::Accessor { key, .. } => seq![*key],
        Tree::Field { key, decorators, .. } => seq![*key] + decorators,
        Tree::PatIdent { .. } => seq![],
        Tree::PatArray { elems, .. } => elems,
        Tree::PatObject { props, .. } => props,
        Tree::PatRest { arg, .. } => seq![*arg],
        Tree::PatShorthand { value, .. } => opt_part(value),
        _ => children_of(t),
    }
}

/// A direct call of `eval` runs in one of the pieces of the list.
pub open spec fn one_evals(list: Seq<Tree>) -> bool {
    exists|i: int| 0 <= i < list.len() && evals(#[trigger] list[i])
}

/// A direct call of `eval` runs in a list if it runs in one of its pieces.
pub proof fn law_lists_that_eval(list: Seq<Tree>)
    ensures
        some_evals(list) <==> one_evals(list),
    decreases list.len(),
{
    if list.len() > 0 {
        let ahead = list.drop_last();
        law_lists_that_eval(ahead);
        assert(list[list.len() - 1] == list.last());
        if some_evals(ahead) {
            let i = choose|i: int| 0 <= i < ahead.len() && evals(#[trigger] ahead[i]);
            assert(evals(list[i]));
        }
        if one_evals(list) {
            let i = choose|i: int| 0 <= i < list.len() && evals(#[trigger] list[i]);
            if i < ahead.len() {
                assert(evals(ahead[i]));
            }
        }
    }
}

proof fn lemma_part_evals(t: Tree, n: nat)
    requires
        n <= children_of(t).len(),
    ensures
        part_evals(t, n) <==> exists|i: int| 0 <= i < n && evals(#[trigger] children_of(t)[i]),
    decreases n,
{
    if n > 0 {
        lemma_part_evals(t, (n - 1) as nat);
        if part_evals(t, n) && !part_evals(t, (n - 1) as nat) {
            assert(evals(children_of(t)[n - 1]));
        }
    }
}

/// A direct call of `eval` runs in the scope in which syntax stands if the syntax is such a
/// call, by the name `eval` in parentheses or not, or if one runs in its parts that are in
/// that scope.
pub proof fn law_direct_evals(t: Tree)
    ensures
        evals(t) <==> (t matches Tree::Call { callee, .. } && called(bare(*callee), "eval"@))
            || one_evals(parts_in_scope(t)),
{
    let parts = parts_in_scope(t);
    match t {
        Tree::Function { .. } => {},
        Tree::Arrow { .. } => {},
        Tree::StaticBlock { .. } => {},
        Tree::Constructor { key, .. } => {
            assert(evals(parts[0]) == evals(*key));
        },
        Tree::Accessor { key, .. } => {
            assert(evals(parts[0]) == evals(*key));
        },
        Tree::Field { key, decorators, .. } => {
            law_lists_that_eval(decorators);
            assert(evals(parts[0]) == evals(*key));
            assert(forall|i: int|
                0 <= i < decorators.len() ==> #[trigger] decorators[i] == parts[1 + i]);
            if one_evals(decorators) {
                let i = choose|i: int|
                    0 <= i < decorators.len() && evals(#[trigger] decorators[i]);
                assert(evals(parts[1 + i]));
            }
            if one_evals(parts) {
                let i = choose|i: int| 0 <= i < parts.len() && evals(#[trigger] parts[i]);
                if i > 0 {
                    assert(evals(decorators[i - 1]));
                }
            }
        },
        Tree::PatIdent { .. } => {},
        Tree::PatArray { elems, .. } => {
            law_lists_that_eval(elems);
        },
        Tree::PatObject { props, .. } => {
            law_lists_that_eval(props);
        },
        Tree::PatRest { arg, .. } => {
            assert(evals(parts[0]) == evals(*arg));
        },
        Tree::PatShorthand { value, .. } => {
            assert(opt_evals(value) == (value is Some && evals(*value->0)));
            if value is Some {
                assert(evals(parts[0]) == evals(*value->0));
            }
        },
        _ => {
            lemma_part_evals(t, parts.len());
            if let Tree::Call { callee, .. } = t {
                law_parentheses_come_off(*callee);
            }
        },
    }
}

/// The code that runs in the scope that `t` opens, and the position of that scope.
pub open spec fn opened(t: Tree) -> Option<(Seq<Tree>, Span)> {
    match t {
        Tree::Function { meta, params, body, .. } => Some((params + opt_part(body), meta.span)),
        Tree::Arrow { meta, params, body, .. } => Some((params + seq![*body], meta.span)),
        Tree::StaticBlock { span, body } => Some((seq![*body], span)),
        Tree::Constructor { meta, params, body, .. } => Some((params + opt_part(body), meta.span)),
        Tree::Accessor { function, .. } => match *function {
            Tree::Function { meta, body, .. } => Some((opt_part(body), meta.span)),
            _ => None,
        },
        Tree::Field { value: Some(value), .. } => Some((seq![*value], span_of(*value))),
        _ => None,
    }
}

proof fn lemma_one_behind(list: Seq<Tree>, more: Seq<Tree>)
    ensures
        one_evals(list + more) <==> one_evals(list) || one_evals(more),
{
    let all = list + more;
    if one_evals(list) {
        let i = choose|i: int| 0 <= i < list.len() && evals(#[trigger] list[i]);
        assert(evals(all[i]));
    }
    if one_evals(more) {
        let i = choose|i: int| 0 <= i < more.len() && evals(#[trigger] more[i]);
        assert(evals(all[list.len() + i]));
    }
    if one_evals(all) {
        let i = choose|i: int| 0 <= i < all.len() && evals(#[trigger] all[i]);
        if i < list.len() {
            assert(evals(list[i]));
        } else {
            assert(evals(more[i - list.len()]));
        }
    }
}

proof fn lemma_one_part(part: Option<Box<Tree>>)
    ensures
        one_evals(opt_part(part)) <==> opt_evals(part),
{
    if part is Some {
        assert(opt_part(part)[0] == *part->0);
        assert(evals(opt_part(part)[0]) == evals(*part->0));
    }
}

proof fn lemma_one(t: Tree)
    ensures
        one_evals(seq![t]) <==> evals(t),
{
    assert(evals(seq![t][0]) == evals(t));
}

/// A scope is one in which a direct call of `eval` runs if it runs in the code that runs in
/// that scope.
pub proof fn law_scopes_of_evals(t: Tree, span: Span)
    ensures
        own_eval_scope(t).contains(span) <==> (opened(t) matches Some((code, place))
            && one_evals(code) && place == span),
{
    let scopes = own_eval_scope(t);
    if scopes.len() > 0 {
        assert(scopes.contains(scopes[0]));
    }
    match t {
        Tree::Function { params, body, .. } => {
            law_lists_that_eval(params);
            lemma_one_part(body);
            lemma_one_behind(params, opt_part(body));
        },
        Tree::Arrow { params, body, .. } => {
            law_lists_that_eval(params);
            lemma_one(*body);
            lemma_one_behind(params, seq![*body]);
        },
        Tree::StaticBlock { body, .. } => {
            lemma_one(*body);
        },
        Tree::Constructor { params, body, .. } => {
            law_lists_that_eval(params);
            lemma_one_part(body);
            lemma_one_behind(params, opt_part(body));
        },
        Tree::Accessor { function, .. } => {
            if let Tree::Function { body, .. } = *function {
                lemma_one_part(body);
            }
        },
        Tree::Field { value, .. } => {
            if let Some(value) = value {
                lemma_one(*value);
            }
        },
        _ => {},
    }
}

/// A direct call of `eval` runs in the scope of a module if it runs in the scope of one of
/// its items.
pub proof fn law_evals_of_a_module(m: ModuleView)
    ensures
        module_evals(m) <==> one_evals(m.body),
{
    law_lists_that_eval(m.body);
}

} // verus!
