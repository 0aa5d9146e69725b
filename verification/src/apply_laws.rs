//! What becomes of calls through `apply`, in the terms of the syntax alone.
use vstd::prelude::*;

use crate::bindings::stable_bindings;
use crate::direct_eval::{module_eval_scopes, module_evals};
use crate::expr_utils::without_types;
use crate::forms::{
    argument, bare, called, free, law_parentheses_come_off, law_wrappers_come_off, owner, undefined,
    unspread, untyped,
};
use crate::rewrite::{lemma_rewritten_list, rewritten, rewritten_list, Rewriting};
use crate::rewrite_level::RewriteLevel;
use crate::syntax::{AssignOp, Mark, ModuleView, Span, SyntaxContext, Tree};
use crate::un_argument_spread::{
    apply_converted, apply_parts, converted, direct_callee, joined, memoized_receiver,
    module_facts, reflect_converted, same_receiver, spread_list, spread_module, spread_stmts,
    within, SpreadFacts,
};

verus! {

broadcast use lemma_rewritten_list;

/// The position of syntax that no source text stands for.
pub open spec fn nowhere() -> Span {
    Span { lo: 0, hi: 0 }
}

/// `t` is a call `function.apply(receiver, list)`, and neither argument is spread.
pub open spec fn apply_call(t: Tree, function: Tree, receiver: Tree, list: Tree) -> bool {
    &&& t matches Tree::Call { callee, args, .. }
    &&& owner(*callee, "apply"@) == Some(function)
    &&& args.len() == 2 && unspread(args[0]) && unspread(args[1])
    &&& argument(args[0]) == receiver
    &&& argument(args[1]) == list
}

/// Both are `this`, or both are the same identifier.
pub open spec fn same_reference(object: Tree, receiver: Tree) -> bool {
    ||| object is This && receiver is This
    ||| object is Ident && receiver is Ident && object->Ident_ident.sym
        == receiver->Ident_ident.sym && object->Ident_ident.ctxt == receiver->Ident_ident.ctxt
}

/// `object` is `temp = value`, in parentheses or not, and `receiver` reads `temp`.
pub open spec fn keeps(object: Tree, value: Tree, receiver: Tree) -> bool {
    &&& bare(object) matches Tree::Assign { op: AssignOp::Assign, left, right, .. }
    &&& *left matches Tree::PatIdent { ident: temp, .. }
    &&& receiver matches Tree::Ident { ident: read }
    &&& temp.sym == read.sym && temp.ctxt == read.ctxt
    &&& *right == value
}

/// A call of `direct` calls `function` with the receiver `receiver`.
pub open spec fn calls_directly(function: Tree, receiver: Tree, direct: Tree, mark: Mark) -> bool {
    match function {
        Tree::Member { span, obj, prop } => {
            ||| same_reference(*obj, receiver) && direct == function
            ||| direct matches Tree::Member { span: direct_span, obj: value, prop: direct_prop }
                && direct_span == span && direct_prop == prop && keeps(*obj, *value, receiver)
        },
        _ => (receiver is Null || undefined(receiver, mark)) && direct == function,
    }
}

/// `out` is the call `t` with another callee, and with the one argument `...list`.
pub open spec fn spreads(out: Tree, t: Tree, list: Tree) -> bool {
    &&& t matches Tree::Call { span, ctxt, types, .. }
    &&& out matches Tree::Call {
        span: out_span,
        ctxt: out_ctxt,
        args: out_args,
        types: out_types,
        ..
    }
    &&& out_span == span && out_ctxt == ctxt && out_types == types
    &&& out_args.len() == 1
    &&& out_args[0] == Tree::Arg { spread: Some(nowhere()), expr: Box::new(list) }
}

/// Only calls `function.apply(receiver, list)` are converted as such.
pub proof fn law_only_applies_are_converted(mark: Mark, t: Tree)
    requires
        apply_converted(mark, t) is Some,
    ensures
        t matches Tree::Call { callee, args, .. } && owner(*callee, "apply"@) matches Some(function)
            && apply_call(t, function, argument(args[0]), argument(args[1])),
{
}

/// Where a call `function.apply(receiver, list)` is converted, the result calls the function
/// with that receiver and with the elements of that list, in the place of the call.
pub proof fn law_apply_becomes_direct(
    mark: Mark,
    t: Tree,
    function: Tree,
    receiver: Tree,
    list: Tree,
)
    requires
        apply_call(t, function, receiver, list),
        apply_converted(mark, t) is Some,
    ensures
        spreads(apply_converted(mark, t)->0, t, list),
        calls_directly(
            function,
            receiver,
            *apply_converted(mark, t)->0->Call_callee,
            mark,
        ),
{
    if let Tree::Member { obj, .. } = function {
        law_parentheses_come_off(*obj);
    }
    if let Tree::Unary { arg, .. } = receiver {
        law_parentheses_come_off(*arg);
    }
}

/// A call `function.apply(receiver, list)` is converted wherever a direct call has that
/// receiver.
pub proof fn law_apply_is_converted(
    mark: Mark,
    t: Tree,
    function: Tree,
    receiver: Tree,
    list: Tree,
    direct: Tree,
)
    requires
        apply_call(t, function, receiver, list),
        calls_directly(function, receiver, direct, mark),
    ensures
        apply_converted(mark, t) is Some,
        *apply_converted(mark, t)->0->Call_callee == direct,
{
    if let Tree::Member { obj, .. } = function {
        law_parentheses_come_off(*obj);
    }
    if let Tree::Unary { arg, .. } = receiver {
        law_parentheses_come_off(*arg);
    }
    assert(apply_parts(t) == Some((function, receiver, list)));
    assert(direct_callee(mark, function, receiver) == Some(direct));
}

/// The method of an object stays called through `apply` where its receiver is another one:
/// neither the object itself nor the variable in which the object is kept.
pub proof fn law_other_receiver_keeps_apply(
    mark: Mark,
    t: Tree,
    function: Tree,
    receiver: Tree,
    list: Tree,
)
    requires
        apply_call(t, function, receiver, list),
        function is Member,
        !same_reference(*function->Member_obj, receiver),
        !(bare(*function->Member_obj) is Assign),
    ensures
        apply_converted(mark, t) is None,
{
    if apply_converted(mark, t) is Some {
        law_apply_becomes_direct(mark, t, function, receiver, list);
    }
}

/// `t` is a call `Reflect.apply(target, receiver, list)` by its names, whatever `Reflect`
/// means there.
pub open spec fn named_reflect_call(t: Tree) -> bool {
    &&& t matches Tree::Call { callee, args, .. }
    &&& owner(*callee, "apply"@) matches Some(object)
    &&& called(object, "Reflect"@)
    &&& args.len() == 3
}

/// `t` is a call `Reflect.apply(target, receiver, list)` with the global `Reflect`, and no
/// argument is spread.
pub open spec fn reflect_call(
    t: Tree,
    target: Tree,
    receiver: Tree,
    list: Tree,
    mark: Mark,
) -> bool {
    &&& t matches Tree::Call { callee, args, .. }
    &&& owner(*callee, "apply"@) matches Some(object)
    &&& free(object, "Reflect"@, mark)
    &&& args.len() == 3 && unspread(args[0]) && unspread(args[1]) && unspread(args[2])
    &&& argument(args[0]) == target
    &&& argument(args[1]) == receiver
    &&& argument(args[2]) == list
}

/// The object of which `target` is a property, out of its parentheses.
pub open spec fn method_owner(target: Tree) -> Option<Tree> {
    match target {
        Tree::Member { obj, .. } => Some(bare(*obj)),
        Tree::OptChain { base, .. } => match *base {
            Tree::Member { obj, .. } => Some(bare(*obj)),
            _ => None,
        },
        _ => None,
    }
}

/// A direct call of `target` has the receiver `receiver`, and reads it once where it was
/// read twice without that making a difference.
pub open spec fn receiver_fits(rule: SpreadFacts, target: Tree, receiver: Tree) -> bool {
    match method_owner(target) {
        Some(object) => {
            &&& same_reference(object, receiver)
            &&& object matches Tree::Ident { ident } ==> rule.stable_bindings.contains(
                (ident.sym, ident.ctxt),
            )
        },
        None => if target is SuperProp {
            receiver is This
        } else {
            receiver is Null || undefined(receiver, rule.unresolved_mark)
        },
    }
}

/// Names mean at `span` what they seem to mean.
pub open spec fn names_are_fixed(rule: SpreadFacts, in_with: bool, span: Span) -> bool {
    &&& !in_with
    &&& !rule.top_level_direct_eval
    &&& forall|i: int|
        0 <= i < rule.direct_eval_scopes.len() ==> !((#[trigger] rule.direct_eval_scopes[i]).lo
            <= span.lo && span.hi <= rule.direct_eval_scopes[i].hi)
}

/// `Reflect.apply(target, receiver, list)` can be written as a direct call.
pub open spec fn reflect_fits(
    rule: SpreadFacts,
    in_with: bool,
    t: Tree,
    target: Tree,
    receiver: Tree,
    list: Tree,
) -> bool {
    &&& reflect_call(t, target, receiver, list, rule.unresolved_mark)
    &&& names_are_fixed(rule, in_with, t->Call_span)
    &&& !called(untyped(target), "eval"@)
    &&& receiver_fits(rule, untyped(target), untyped(receiver))
}

proof fn lemma_reflect_parts(rule: SpreadFacts, target: Tree, receiver: Tree, list: Tree)
    ensures
        same_receiver(
            rule,
            without_types(target),
            without_types(receiver),
        ) <==> receiver_fits(rule, untyped(target), untyped(receiver)),
        spread_list(list) == (if untyped(list) is Array {
            untyped(list)
        } else {
            bare(list)
        }),
{
    law_wrappers_come_off(target);
    law_wrappers_come_off(receiver);
    law_wrappers_come_off(list);
    law_parentheses_come_off(list);
    law_wrappers_come_off(bare(list));
    match untyped(target) {
        Tree::Member { obj, .. } => {
            law_parentheses_come_off(*obj);
        },
        Tree::OptChain { base, .. } => match *base {
            Tree::Member { obj, .. } => {
                law_parentheses_come_off(*obj);
            },
            _ => {},
        },
        _ => {},
    }
    if let Tree::Unary { arg, .. } = untyped(receiver) {
        law_parentheses_come_off(*arg);
    }
}

/// Where a call by the names `Reflect.apply` is converted, `Reflect` is the global, names
/// mean what they seem to mean, no argument is spread, the target is not `eval`, and a
/// direct call of the target has the receiver that was given.
pub proof fn law_only_fitting_reflect_applies_are_converted(
    rule: SpreadFacts,
    in_with: bool,
    t: Tree,
)
    requires
        named_reflect_call(t),
        converted(rule, in_with, t) is Some,
    ensures
        t matches Tree::Call { args, .. } && reflect_fits(
            rule,
            in_with,
            t,
            argument(args[0]),
            argument(args[1]),
            argument(args[2]),
        ),
{
    let args = t->Call_args;
    lemma_reflect_parts(rule, argument(args[0]), argument(args[1]), argument(args[2]));
    law_wrappers_come_off(argument(args[0]));
    assert(reflect_converted(rule, in_with, t) is Some);
    let scopes = rule.direct_eval_scopes;
    assert forall|i: int| 0 <= i < scopes.len() implies !((#[trigger] scopes[i]).lo
        <= t->Call_span.lo && t->Call_span.hi <= scopes[i].hi) by {
        assert(!within(t->Call_span, scopes[i]));
    }
}

/// Where `Reflect.apply(target, receiver, list)` is converted, the result stands nowhere in
/// the source text, calls the target as it is written, and has one argument: the list,
/// spread. The list comes out of its parentheses, and an array literal out of its
/// TypeScript wrappers as well.
pub proof fn law_reflect_apply_becomes_direct(
    rule: SpreadFacts,
    in_with: bool,
    t: Tree,
    target: Tree,
    receiver: Tree,
    list: Tree,
)
    requires
        reflect_call(t, target, receiver, list, rule.unresolved_mark),
        converted(rule, in_with, t) is Some,
    ensures
        converted(rule, in_with, t)->0 matches Tree::Call { span, ctxt, callee, args, types } && {
            &&& span == nowhere()
            &&& ctxt == SyntaxContext { id: 0, outer: 0 }
            &&& *callee == target
            &&& types.len() == 0
            &&& args.len() == 1
            &&& args[0] matches Tree::Arg { spread: Some(place), expr }
            &&& place == nowhere()
            &&& untyped(*expr) == untyped(list)
            &&& untyped(list) is Array ==> *expr == untyped(list)
            &&& !(untyped(list) is Array) ==> *expr == bare(list)
        },
{
    lemma_reflect_parts(rule, target, receiver, list);
    law_wrappers_come_off(list);
    law_wrappers_come_off(untyped(list));
    lemma_untyped_twice(list);
}

proof fn lemma_untyped_twice(t: Tree)
    ensures
        untyped(untyped(t)) == untyped(t),
    decreases t,
{
    if t is Paren {
        lemma_untyped_twice(*t->Paren_expr);
    } else if t is Typed {
        lemma_untyped_twice(*t->Typed_expr);
    }
}

/// `Reflect.apply(target, receiver, list)` is converted wherever it can be.
pub proof fn law_fitting_reflect_apply_is_converted(
    rule: SpreadFacts,
    in_with: bool,
    t: Tree,
    target: Tree,
    receiver: Tree,
    list: Tree,
)
    requires
        reflect_fits(rule, in_with, t, target, receiver, list),
    ensures
        converted(rule, in_with, t) is Some,
{
    lemma_reflect_parts(rule, target, receiver, list);
    law_wrappers_come_off(target);
}

/// A call that is not by the names `Reflect.apply` is converted in every place alike.
pub proof fn law_other_calls_do_not_depend_on_the_place(
    rule: SpreadFacts,
    in_with: bool,
    t: Tree,
)
    requires
        !named_reflect_call(t),
    ensures
        converted(rule, in_with, t) == apply_converted(rule.unresolved_mark, t),
{
}

/// Below the standard level the rule changes nothing. From there on it writes calls as
/// direct calls, and joins the statements of blocks, of bodies of functions and of the cases
/// of a `switch`; what is neither, and all that stands beside those statements, stays.
pub proof fn law_what_is_changed_at_once(rule: SpreadFacts, state: bool, t: Tree)
    ensures
        rule.level == RewriteLevel::Minimal ==> rule.left(state, t) == t,
        rule.level != RewriteLevel::Minimal ==> match t {
            Tree::Call { .. } => match converted(rule, state, t) {
                Some(direct) => rule.left(state, t) == direct,
                None => rule.left(state, t) == t,
            },
            Tree::Block { meta, stmts } => rule.left(state, t) matches Tree::Block {
                meta: new_meta,
                stmts: new_stmts,
            } && new_meta == meta && new_stmts == joined(stmts),
            Tree::FunctionBody { span, stmts } => rule.left(state, t) matches Tree::FunctionBody {
                span: new_span,
                stmts: new_stmts,
            } && new_span == span && new_stmts == joined(stmts),
            Tree::SwitchCase { span, test, cons } => rule.left(state, t) matches Tree::SwitchCase {
                span: new_span,
                test: new_test,
                cons: new_cons,
            } && new_span == span && new_test == test && new_cons == joined(cons),
            _ => rule.left(state, t) == t,
        },
{
}

/// The body of a `with` statement is the only place that is told apart from the others, and
/// all that stands in it stands in such a body.
pub proof fn law_with_bodies(rule: SpreadFacts, state: bool, t: Tree)
    ensures
        rule.entered(state, t) == state,
        rule.entered_with(state),
{
}

/// What the rule goes by in a module: its mark and its level, the bindings of the module that
/// never change, and where direct calls of `eval` run in it.
pub proof fn law_what_the_rule_goes_by(m: ModuleView, mark: Mark, level: RewriteLevel)
    ensures
        module_facts(m, mark, level).unresolved_mark == mark,
        module_facts(m, mark, level).level == level,
        module_facts(m, mark, level).stable_bindings == stable_bindings(m),
        module_facts(m, mark, level).top_level_direct_eval == module_evals(m),
        module_facts(m, mark, level).direct_eval_scopes == module_eval_scopes(m),
{
}

/// The items of a module are rewritten one by one, outside of the body of a `with` statement,
/// and those that the module itself consists of are not joined.
pub proof fn law_modules_item_by_item(m: ModuleView, mark: Mark, level: RewriteLevel)
    ensures
        spread_module(m, mark, level).span == m.span,
        spread_module(m, mark, level).body.len() == m.body.len(),
        forall|i: int|
            0 <= i < m.body.len() ==> #[trigger] spread_module(m, mark, level).body[i]
                == rewritten(module_facts(m, mark, level), false, m.body[i]),
{
}

/// Statements that stand by themselves are rewritten one by one, and from the standard level
/// on joined.
pub proof fn law_statements_by_themselves(rule: SpreadFacts, stmts: Seq<Tree>)
    ensures
        ({
            let parts = Seq::new(stmts.len(), |i: int| rewritten(rule, false, stmts[i]));
            &&& rule.level == RewriteLevel::Minimal ==> spread_stmts(rule, stmts) == parts
            &&& rule.level != RewriteLevel::Minimal ==> spread_stmts(rule, stmts) == joined(parts)
        }),
{
    let parts = Seq::new(stmts.len(), |i: int| rewritten(rule, false, stmts[i]));
    assert(rewritten_list(rule, false, stmts) =~= parts);
}

/// What is converted by the names `Reflect.apply` is converted as such, and nothing else is.
pub proof fn law_reflect_conversion_is_for_reflect_calls(rule: SpreadFacts, in_with: bool, t: Tree)
    ensures
        named_reflect_call(t) ==> reflect_converted(rule, in_with, t) == converted(
            rule,
            in_with,
            t,
        ),
        !named_reflect_call(t) ==> reflect_converted(rule, in_with, t) is None,
{
}

/// The object that is kept in the variable that is read is the value that was assigned to it,
/// and there is none otherwise.
pub proof fn law_kept_objects(object: Tree, read: Tree)
    ensures
        match memoized_receiver(object, read) {
            Some(value) => keeps(object, value, read),
            None => forall|value: Tree| !keeps(object, value, read),
        },
{
    law_parentheses_come_off(object);
}

} // verus!
