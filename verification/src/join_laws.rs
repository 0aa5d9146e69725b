//! How split calls are joined, in the terms of the syntax alone.
use vstd::prelude::*;

use crate::apply_laws::{apply_call, keeps, nowhere};
use crate::bindings::{binding_of, Binding};
use crate::decl_utils::{
    bindings_of, declared_uninitialized, declares_uninitialized, kept_decls, one_uninitialized,
    removed, some_uses, uninitialized, without_decls,
};
use crate::forms::{
    argument, bare, law_parentheses_come_off, mentions, owner, targets,
};
use crate::same::placeless;
use crate::syntax::{AssignOp, IdentView, Tree};
use crate::un_argument_spread::{
    apply_parts, join_at, joined, joined_from, listed_args, method_assignment, one_used,
    split_converted, split_joined, split_receiver, statement_call,
};

verus! {

/// `args` are the arguments of a direct call that stand for the argument list `list`: the
/// elements of an array literal without holes, in their order, else the list itself, spread.
pub open spec fn stands_for(args: Seq<Tree>, list: Tree) -> bool {
    if list is Array && forall|i: int|
        0 <= i < list->Array_elems.len() ==> !(#[trigger] list->Array_elems[i] is Hole) {
        args == list->Array_elems
    } else {
        args.len() == 1 && args[0] == Tree::Arg {
            spread: Some(nowhere()),
            expr: Box::new(list),
        }
    }
}

/// The argument list of `apply` stands as its elements, or as one argument that is spread.
pub proof fn law_list_becomes_arguments(list: Tree)
    ensures
        stands_for(listed_args(list), list),
{
}

/// The two statements are `temp = method` and the call `temp.apply(receiver, list)`, where
/// `method` is a property of an object.
pub open spec fn split_pair(
    first: Tree,
    second: Tree,
    temp: IdentView,
    method: Tree,
    call: Tree,
    receiver: Tree,
    list: Tree,
) -> bool {
    &&& first matches Tree::ExprStmt { expr: assign, .. }
    &&& *assign matches Tree::Assign { op: AssignOp::Assign, left, right, .. }
    &&& *left matches Tree::PatIdent { ident, .. }
    &&& ident == temp && *right == method && method is Member
    &&& second matches Tree::ExprStmt { expr: called, .. }
    &&& *called == call
    &&& call matches Tree::Call { callee, .. }
    &&& owner(*callee, "apply"@) matches Some(function)
    &&& mentions(function, (temp.sym, temp.ctxt))
    &&& apply_call(call, function, receiver, list)
}

/// The statement `stmt` calls the method `method` of the object `object` directly, in the
/// place of `call`, with arguments that stand for `list`.
pub open spec fn direct_statement(
    stmt: Tree,
    object: Tree,
    method: Tree,
    call: Tree,
    list: Tree,
) -> bool {
    &&& method matches Tree::Member { span: method_span, prop: method_prop, .. }
    &&& call matches Tree::Call { span: call_span, ctxt: call_ctxt, types: call_types, .. }
    &&& stmt matches Tree::ExprStmt { span: stmt_span, expr }
    &&& *expr matches Tree::Call { span, ctxt, callee, args, types }
    &&& stmt_span == call_span && span == call_span && ctxt == call_ctxt && types == call_types
    &&& *callee matches Tree::Member { span: member_span, obj, prop }
    &&& member_span == method_span && prop == method_prop && *obj == object
    &&& stands_for(args, list)
}

/// `ident` is used in the statements other than by declaring it.
pub open spec fn still_used(stmts: Seq<Tree>, ident: IdentView) -> bool {
    some_uses(stmts, (ident.sym, ident.ctxt), false)
}

/// Only pairs `temp = object.method`, `temp.apply(receiver, list)` are joined.
pub proof fn law_only_split_pairs_are_joined(first: Tree, second: Tree, rest: Seq<Tree>)
    requires
        split_converted(first, second, rest) is Some,
    ensures
        first matches Tree::ExprStmt { expr: assign, .. } && *assign matches Tree::Assign {
            left,
            right,
            ..
        } && *left matches Tree::PatIdent { ident, .. } && second matches Tree::ExprStmt {
            expr: call,
            ..
        } && *call matches Tree::Call { args, .. } && split_pair(
            first,
            second,
            ident,
            *right,
            *call,
            argument(args[0]),
            argument(args[1]),
        ),
{
    let (temp, method) = method_assignment(first)->0;
    let call = statement_call(second)->0;
    assert(split_joined(temp, method, call) is Some);
    assert(apply_parts(call) is Some);
}

proof fn lemma_split_receiver(object: Tree, receiver: Tree)
    ensures
        placeless(receiver) != placeless(object) ==> match split_receiver(object, receiver) {
            Some((value, temps)) => keeps(object, value, receiver) && temps
                == seq![receiver->Ident_ident],
            None => !keeps(object, *bare(object)->Assign_right, receiver),
        },
{
    law_parentheses_come_off(object);
}

/// Where a pair `temp = object.method`, `temp.apply(receiver, list)` is joined and the
/// receiver is the object but for positions, the method of that object is called, and the
/// pair does without `temp`; it is joined unless `temp` is used behind it.
pub proof fn law_pair_with_its_object(
    first: Tree,
    second: Tree,
    rest: Seq<Tree>,
    temp: IdentView,
    method: Tree,
    call: Tree,
    receiver: Tree,
    list: Tree,
)
    requires
        split_pair(first, second, temp, method, call, receiver, list),
        placeless(receiver) == placeless(*method->Member_obj),
    ensures
        match split_converted(first, second, rest) {
            Some((stmt, temps)) => {
                &&& direct_statement(stmt, *method->Member_obj, method, call, list)
                &&& temps == seq![temp]
                &&& !still_used(rest, temp)
            },
            None => still_used(rest, temp),
        },
{
    let function = owner(*call->Call_callee, "apply"@)->0;
    assert(method_assignment(first) == Some((temp, method)));
    assert(statement_call(second) == Some(call));
    assert(apply_parts(call) == Some((function, receiver, list)));
    assert(split_joined(temp, method, call) is Some);
    let (stmt, temps) = split_joined(temp, method, call)->0;
    assert(temps =~= seq![temp]);
    assert(bindings_of(temps)[0] == (temp.sym, temp.ctxt));
    if one_used(rest, bindings_of(temps)) {
        assert(still_used(rest, temp));
    }
    law_list_becomes_arguments(list);
}

/// Where a pair `temp = object.method`, `temp.apply(receiver, list)` is joined and the
/// receiver is not the object, the object is `(kept = value)` and the receiver reads `kept`;
/// the method of `value` is called, and the pair does without `temp` and `kept`. Such a pair
/// is joined unless one of the two is used behind it.
pub proof fn law_pair_with_a_kept_object(
    first: Tree,
    second: Tree,
    rest: Seq<Tree>,
    temp: IdentView,
    method: Tree,
    call: Tree,
    receiver: Tree,
    list: Tree,
)
    requires
        split_pair(first, second, temp, method, call, receiver, list),
        placeless(receiver) != placeless(*method->Member_obj),
    ensures
        match split_converted(first, second, rest) {
            Some((stmt, temps)) => {
                let value = *bare(*method->Member_obj)->Assign_right;
                &&& keeps(*method->Member_obj, value, receiver)
                &&& direct_statement(stmt, value, method, call, list)
                &&& temps == seq![temp, receiver->Ident_ident]
                &&& !still_used(rest, temp)
                &&& !still_used(rest, receiver->Ident_ident)
            },
            None => {
                ||| !keeps(
                    *method->Member_obj,
                    *bare(*method->Member_obj)->Assign_right,
                    receiver,
                )
                ||| still_used(rest, temp)
                ||| still_used(rest, receiver->Ident_ident)
            },
        },
{
    let function = owner(*call->Call_callee, "apply"@)->0;
    let object = *method->Member_obj;
    lemma_split_receiver(object, receiver);
    assert(method_assignment(first) == Some((temp, method)));
    assert(statement_call(second) == Some(call));
    assert(apply_parts(call) == Some((function, receiver, list)));
    if let Some((stmt, temps)) = split_joined(temp, method, call) {
        assert(temps =~= seq![temp, receiver->Ident_ident]);
        let ids = bindings_of(temps);
        assert(ids[0] == (temp.sym, temp.ctxt));
        assert(ids[1] == binding_of(receiver->Ident_ident));
        if one_used(rest, ids) {
            assert(still_used(rest, temp) || still_used(rest, receiver->Ident_ident));
        }
    }
    law_list_becomes_arguments(list);
}

/// One of the statements declares the variable `ident` and gives it no value.
pub open spec fn declared_without_value(stmts: Seq<Tree>, ident: IdentView) -> bool {
    exists|i: int, k: int| #[trigger]
        declares_at(stmts, i, k) && declares_only(
            stmts[i]->VarDecl_decls[k],
            (ident.sym, ident.ctxt),
        )
}

/// The statement at `i` is a declaration of variables that has a declarator at `k`.
pub open spec fn declares_at(stmts: Seq<Tree>, i: int, k: int) -> bool {
    0 <= i < stmts.len() && stmts[i] is VarDecl && 0 <= k < stmts[i]->VarDecl_decls.len()
}

/// `t` is a declarator of the variable `id` alone, without a value.
pub open spec fn declares_only(t: Tree, id: Binding) -> bool {
    t matches Tree::Declarator { name, init, .. } && init is None && targets(*name, id)
}

proof fn lemma_declared(stmts: Seq<Tree>, ident: IdentView)
    ensures
        declared_without_value(stmts, ident)
            <==> declared_uninitialized(stmts, binding_of(ident)),
{
    let id = binding_of(ident);
    if declared_uninitialized(stmts, id) {
        let i = choose|i: int|
            0 <= i < stmts.len() && #[trigger] declares_uninitialized(
                stmts[i],
                id,
            );
        let decls = stmts[i]->VarDecl_decls;
        let k = choose|k: int|
            0 <= k < decls.len() && #[trigger] uninitialized(decls[k], id);
        assert(declares_at(stmts, i, k));
    }
    if declared_without_value(stmts, ident) {
        let (i, k) = choose|i: int, k: int| #[trigger]
            declares_at(stmts, i, k) && declares_only(stmts[i]->VarDecl_decls[k], id);
        assert(uninitialized(stmts[i]->VarDecl_decls[k], id));
        assert(declares_uninitialized(stmts[i], id));
    }
}

/// Two neighbours are joined where they are a pair that can be, and where each temporary
/// that the pair does without is declared before it without a value and not used there.
pub proof fn law_joined_where_temporaries_are_unused(done: Seq<Tree>, stmts: Seq<Tree>, index: int)
    requires
        0 <= index,
        index + 1 < stmts.len(),
    ensures
        match join_at(done, stmts, index) {
            Some((stmt, temps)) => {
                &&& split_converted(
                    stmts[index],
                    stmts[index + 1],
                    stmts.subrange(index + 2, stmts.len() as int),
                ) == Some((stmt, temps))
                &&& forall|i: int|
                    0 <= i < temps.len() ==> declared_without_value(done, #[trigger] temps[i])
                        && !still_used(done, temps[i])
            },
            None => split_converted(
                stmts[index],
                stmts[index + 1],
                stmts.subrange(index + 2, stmts.len() as int),
            ) matches Some((_, temps)) ==> exists|i: int|
                0 <= i < temps.len() && (!declared_without_value(done, #[trigger] temps[i])
                    || still_used(done, temps[i])),
        },
{
    let rest = stmts.subrange(index + 2, stmts.len() as int);
    assert(stmts.skip(index + 2) =~= rest);
    if let Some((_, temps)) = split_converted(stmts[index], stmts[index + 1], rest) {
        let ids = bindings_of(temps);
        assert forall|i: int| 0 <= i < temps.len() implies declared_without_value(
            done,
            #[trigger] temps[i],
        ) == declared_uninitialized(done, ids[i]) by {
            lemma_declared(done, temps[i]);
        }
        if join_at(done, stmts, index) is None {
            let i = choose|i: int|
                0 <= i < ids.len() && !(declared_uninitialized(
                    done,
                    #[trigger] ids[i],
                ) && !some_uses(done, ids[i], false));
            assert(!declared_without_value(done, temps[i]) || still_used(done, temps[i]));
        } else {
            assert forall|i: int| 0 <= i < temps.len() implies declared_without_value(
                done,
                #[trigger] temps[i],
            ) && !still_used(done, temps[i]) by {
                assert(ids[i] == binding_of(temps[i]));
            }
        }
    }
}

/// The variables that these identifiers name.
pub open spec fn variables(temps: Seq<IdentView>) -> Seq<Binding> {
    Seq::new(temps.len(), |i: int| (temps[i].sym, temps[i].ctxt))
}

proof fn lemma_variables(temps: Seq<IdentView>)
    ensures
        bindings_of(temps) == variables(temps),
{
    assert(bindings_of(temps) =~= variables(temps));
}

/// Statements are taken in turn, behind those that are done: a pair that is joined goes over
/// as the one statement that stands for it, and the declarations of its temporaries leave
/// what is done; any other statement goes over as it is.
pub proof fn law_statements_are_taken_in_turn(done: Seq<Tree>, stmts: Seq<Tree>, index: int)
    requires
        0 <= index <= stmts.len(),
    ensures
        index == stmts.len() ==> joined_from(done, stmts, index) == done,
        index < stmts.len() ==> match join_at(done, stmts, index) {
            Some((stmt, temps)) => joined_from(done, stmts, index) == joined_from(
                removed(done, variables(temps)) + seq![stmt],
                stmts,
                index + 2,
            ),
            None => joined_from(done, stmts, index) == joined_from(
                done + seq![stmts[index]],
                stmts,
                index + 1,
            ),
        },
        index + 1 == stmts.len() ==> joined_from(done, stmts, index) == done + seq![stmts[index]],
        joined(stmts) == joined_from(Seq::empty(), stmts, 0),
{
    if index < stmts.len() {
        match join_at(done, stmts, index) {
            Some((stmt, temps)) => {
                let kept = removed(done, bindings_of(temps));
                lemma_variables(temps);
                assert(kept.push(stmt) =~= kept + seq![stmt]);
            },
            None => {
                assert(done.push(stmts[index]) =~= done + seq![stmts[index]]);
            },
        }
    }
    assert(Seq::<Tree>::empty() =~= seq![]);
}

proof fn lemma_behind(done: Seq<Tree>, stmts: Seq<Tree>, index: int)
    requires
        0 <= index <= stmts.len(),
        forall|i: int|
            index <= i && i + 1 < stmts.len() ==> split_converted(
                #[trigger] stmts[i],
                stmts[i + 1],
                stmts.skip(i + 2),
            ) is None,
    ensures
        joined_from(done, stmts, index) == done + stmts.skip(index),
    decreases stmts.len() - index,
{
    if index < stmts.len() {
        assert(join_at(done, stmts, index) is None);
        lemma_behind(done.push(stmts[index]), stmts, index + 1);
        assert(done.push(stmts[index]) + stmts.skip(index + 1) =~= done + stmts.skip(index));
    } else {
        assert(done + stmts.skip(index) =~= done);
    }
}

proof fn lemma_ahead(stmts: Seq<Tree>, index: int, upto: int)
    requires
        0 <= index <= upto <= stmts.len(),
        forall|i: int|
            0 <= i < upto && i + 1 < stmts.len() ==> split_converted(
                #[trigger] stmts[i],
                stmts[i + 1],
                stmts.skip(i + 2),
            ) is None,
    ensures
        joined_from(stmts.take(index), stmts, index) == joined_from(stmts.take(upto), stmts, upto),
    decreases upto - index,
{
    if index < upto {
        assert(join_at(stmts.take(index), stmts, index) is None);
        assert(stmts.take(index).push(stmts[index]) =~= stmts.take(index + 1));
        lemma_ahead(stmts, index + 1, upto);
    }
}

/// Of statements among which one pair is joined and no other, the one statement that stands
/// for the pair is left in its place, the statements before it without the declarations of
/// its temporaries, and the statements behind it as they are.
pub proof fn law_one_pair_is_joined(
    stmts: Seq<Tree>,
    index: int,
    stmt: Tree,
    temps: Seq<IdentView>,
)
    requires
        0 <= index,
        join_at(stmts.take(index), stmts, index) == Some((stmt, temps)),
        forall|i: int|
            0 <= i < index ==> split_converted(
                #[trigger] stmts[i],
                stmts[i + 1],
                stmts.skip(i + 2),
            ) is None,
        forall|i: int|
            index + 2 <= i && i + 1 < stmts.len() ==> split_converted(
                #[trigger] stmts[i],
                stmts[i + 1],
                stmts.skip(i + 2),
            ) is None,
    ensures
        joined(stmts) == removed(stmts.take(index), variables(temps)) + seq![stmt] + stmts.skip(
            index + 2,
        ),
{
    let kept = removed(stmts.take(index), bindings_of(temps));
    lemma_variables(temps);
    assert(stmts.take(0) =~= seq![]);
    lemma_ahead(stmts, 0, index);
    lemma_behind(kept.push(stmt), stmts, index + 2);
    assert(kept.push(stmt) =~= kept + seq![stmt]);
}

/// One of `ids` is declared alone and without a value by `t`.
pub open spec fn declares_one_only(t: Tree, ids: Seq<Binding>) -> bool {
    exists|i: int| 0 <= i < ids.len() && declares_only(t, #[trigger] ids[i])
}

/// Lists of declarators are filtered one by one: those that declare one of `ids` without a
/// value leave, and the others stay as they are.
pub proof fn law_declarators_are_filtered(a: Seq<Tree>, b: Seq<Tree>, t: Tree, ids: Seq<Binding>)
    ensures
        kept_decls(a + b, ids) == kept_decls(a, ids) + kept_decls(b, ids),
        kept_decls(seq![t], ids) == (if declares_one_only(t, ids) {
            seq![]
        } else {
            seq![t]
        }),
        kept_decls(Seq::empty(), ids).len() == 0,
    decreases b.len(),
{
    if b.len() == 0 {
        assert(a + b =~= a);
        assert(kept_decls(a, ids) + kept_decls(b, ids) =~= kept_decls(a, ids));
    } else {
        law_declarators_are_filtered(a, b.drop_last(), t, ids);
        assert((a + b).drop_last() =~= a + b.drop_last());
        if !one_uninitialized(b.last(), ids) {
            assert(kept_decls(a + b, ids) =~= kept_decls(a, ids) + kept_decls(b, ids));
        }
    }
    assert(seq![t].drop_last() =~= seq![]);
    assert(seq![t].last() == t);
    assert(kept_decls(seq![], ids) =~= seq![]);
    if one_uninitialized(t, ids) {
        let i = choose|i: int|
            0 <= i < ids.len() && uninitialized(t, #[trigger] ids[i]);
        assert(declares_only(t, ids[i]));
    }
    if declares_one_only(t, ids) {
        let i = choose|i: int| 0 <= i < ids.len() && declares_only(t, #[trigger] ids[i]);
        assert(uninitialized(t, ids[i]));
    }
    assert(kept_decls(seq![], ids).push(t) =~= seq![t]);
}

/// Statements lose the declarations of `ids` one by one: a declaration of variables keeps
/// its other declarators, or leaves where there are none; any other statement stays.
pub proof fn law_declarations_leave(a: Seq<Tree>, b: Seq<Tree>, t: Tree, ids: Seq<Binding>)
    ensures
        removed(a + b, ids) == removed(a, ids) + removed(b, ids),
        removed(Seq::empty(), ids).len() == 0,
        match t {
            Tree::VarDecl { meta, kind, decls } => if decls.len() > 0 && kept_decls(
                decls,
                ids,
            ).len() == 0 {
                removed(seq![t], ids).len() == 0
            } else {
                removed(seq![t], ids) == seq![
                    Tree::VarDecl { meta, kind, decls: kept_decls(decls, ids) },
                ]
            },
            _ => removed(seq![t], ids) == seq![t],
        },
    decreases b.len(),
{
    if b.len() == 0 {
        assert(a + b =~= a);
        assert(removed(a, ids) + removed(b, ids) =~= removed(a, ids));
    } else {
        law_declarations_leave(a, b.drop_last(), t, ids);
        assert((a + b).drop_last() =~= a + b.drop_last());
        assert(removed(a + b, ids) =~= removed(a, ids) + removed(b, ids));
    }
    assert(seq![t].drop_last() =~= seq![]);
    assert(seq![t].last() == t);
    let left = without_decls(t, ids);
    assert(removed(seq![], ids) + left =~= left);
}

/// The statement `t` assigns the property `method` of some object to the variable `temp`.
pub open spec fn keeps_method(t: Tree, temp: IdentView, method: Tree) -> bool {
    &&& t matches Tree::ExprStmt { expr, .. }
    &&& *expr matches Tree::Assign { op: AssignOp::Assign, left, right, .. }
    &&& *left matches Tree::PatIdent { ident, .. }
    &&& ident == temp && *right == method && method is Member
}

/// The variable and the method of a statement are those of its assignment, and there are none
/// where it assigns no method.
pub proof fn law_kept_methods(t: Tree)
    ensures
        match method_assignment(t) {
            Some((temp, method)) => keeps_method(t, temp, method),
            None => forall|temp: IdentView, method: Tree| !keeps_method(t, temp, method),
        },
{
}

/// The call of a statement is its expression, where that is a call.
pub proof fn law_calls_of_statements(t: Tree)
    ensures
        match statement_call(t) {
            Some(call) => t matches Tree::ExprStmt { expr, .. } && *expr == call && call is Call,
            None => !(t is ExprStmt && *t->ExprStmt_expr is Call),
        },
{
}

} // verus!
