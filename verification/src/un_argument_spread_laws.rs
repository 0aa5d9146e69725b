//! What holds of the rewrite of calls through `apply` as a whole.
use vstd::prelude::*;

use crate::bindings::{binding_of, reads, stable, Binding};
use crate::decl_utils::{
    bindings_of, declared_uninitialized, declares_uninitialized, kept_decls, one_uninitialized,
    part_uses, removed, some_uses, uses, without_decls,
};
use crate::direct_eval::{
    eval_scopes, item_eval_scopes, module_eval_scopes, module_evals, own_eval_scope,
    part_eval_scopes,
};
use crate::expr_utils::{global, named, object_of, plain, without_parens, without_types};
use crate::occurs::{
    lemma_absent_in_parts, lemma_occurs, lemma_occurs_also, occurs, some_occurs,
};
use crate::rewrite::{lemma_rewritten_list, rewritten, rewritten_list, rewritten_parts, Rewriting};
use crate::rewrite_laws::{law_parts_rewritten, law_quiet_list};
use crate::rewrite_level::RewriteLevel;
use crate::same::placeless;
use crate::syntax::{IdentView, Mark, ModuleView, Span, SyntaxContext, Tree};
use crate::un_argument_spread::{
    apply_converted, apply_parts, converted, direct_callee, direct_spread_call, join_at, joined,
    joined_from, listed_args, memoized_receiver, method_assignment, module_facts,
    names_reflect_apply, nullish, receiver_of, split_call, split_converted, split_receiver,
    spread_arg, spread_list, spread_module, statement_call, within, SpreadFacts,
    UnArgumentSpread,
};
use crate::walk::{children_of, lemma_children_smaller, opt_part};

verus! {

broadcast use lemma_rewritten_list;

/// The rule goes by what holds of the module `m`.
pub open spec fn knows(rule: SpreadFacts, m: ModuleView) -> bool {
    rule == module_facts(m, rule.unresolved_mark, rule.level)
}

/// What becomes of a module depends on the module, the mark and the level alone: two rules
/// of one mark and one level that go by what holds of it rewrite it alike, whatever modules
/// they saw before.
pub proof fn law_nothing_carries_over(a: UnArgumentSpread, b: UnArgumentSpread, m: ModuleView)
    requires
        a.unresolved_mark == b.unresolved_mark,
        a.level == b.level,
        knows(a@, m),
        knows(b@, m),
    ensures
        rewritten_list(a@, false, m.body) == rewritten_list(b@, false, m.body),
        rewritten_list(a@, false, m.body) == spread_module(m, a.unresolved_mark, a.level).body,
{
}

/// Below the standard level the rule changes nothing.
pub proof fn law_minimal_level_changes_nothing(
    rule: SpreadFacts,
    state: bool,
    list: Seq<Tree>,
)
    requires
        rule.level == RewriteLevel::Minimal,
    ensures
        rewritten_list(rule, state, list) == list,
{
    law_quiet_list(rule, |state: bool| true, state, list);
}

/// Below the standard level a module stays as it is.
pub proof fn law_minimal_level_keeps_modules(m: ModuleView, mark: Mark)
    ensures
        spread_module(m, mark, RewriteLevel::Minimal) == m,
{
    law_minimal_level_changes_nothing(
        module_facts(m, mark, RewriteLevel::Minimal),
        false,
        m.body,
    );
}

/// A call that was made direct is not converted once more.
pub proof fn law_direct_call_is_final(
    rule: SpreadFacts,
    in_with: bool,
    again: SpreadFacts,
    again_in_with: bool,
    t: Tree,
)
    requires
        converted(rule, in_with, t) is Some,
    ensures
        converted(again, again_in_with, converted(rule, in_with, t)->0) is None,
{
}

/// The method of an object is called directly only where the receiver is an identifier or
/// `this`: a receiver that is itself a member would be read once instead of twice, and
/// without a receiver the method would get one.
pub proof fn law_method_needs_its_receiver(mark: Mark, t: Tree)
    requires
        apply_parts(t) matches Some((function, this_arg, _)) && function is Member && !(
        this_arg is Ident) && !(this_arg is This),
    ensures
        apply_converted(mark, t) is None,
{
}

/// A function that is no method is called directly only where the receiver is nullish.
pub proof fn law_function_needs_no_receiver(mark: Mark, t: Tree)
    requires
        apply_parts(t) matches Some((function, this_arg, _)) && !(function is Member) && !nullish(
            this_arg,
            mark,
        ),
    ensures
        apply_converted(mark, t) is None,
{
}

/// `Reflect.apply(target, receiver, arguments)` is converted only where `Reflect` is the
/// global, where names mean what they seem to mean, where no argument is spread and the
/// target is not `eval`; what it becomes is the target with the arguments spread.
pub proof fn law_reflect_apply_conversion(rule: SpreadFacts, in_with: bool, t: Tree)
    requires
        names_reflect_apply(t),
        converted(rule, in_with, t) is Some,
    ensures
        !in_with,
        !rule.top_level_direct_eval,
        t matches Tree::Call { span, callee, args, .. } && {
            &&& forall|i: int|
                0 <= i < rule.direct_eval_scopes.len() ==> !within(
                    span,
                    #[trigger] rule.direct_eval_scopes[i],
                )
            &&& global(object_of(*callee, "apply"@)->0, "Reflect"@, rule.unresolved_mark)
            &&& plain(args[0]) is Some && plain(args[1]) is Some && plain(args[2]) is Some
            &&& !named(without_types(plain(args[0])->0), "eval"@)
            &&& converted(rule, in_with, t) == Some(
                direct_spread_call(
                    Span::dummy(),
                    SyntaxContext::empty(),
                    plain(args[0])->0,
                    spread_list(plain(args[2])->0),
                    seq![],
                ),
            )
        },
{
}

/// Where `Reflect.apply` is converted, the receiver that it names is the receiver of the
/// direct call: `this`, a binding of the module that never changes, or none at all.
pub proof fn law_reflect_apply_receiver(
    rule: SpreadFacts,
    m: ModuleView,
    in_with: bool,
    t: Tree,
)
    requires
        knows(rule, m),
        names_reflect_apply(t),
        converted(rule, in_with, t) is Some,
    ensures
        t matches Tree::Call { args, .. } && {
            let target = without_types(plain(args[0])->0);
            let this_arg = without_types(plain(args[1])->0);
            match receiver_of(target) {
                Some(Tree::This { .. }) => this_arg is This,
                Some(Tree::Ident { ident }) => stable(m, binding_of(ident)) && reads(
                    this_arg,
                    binding_of(ident),
                ),
                Some(_) => false,
                None => if target is SuperProp {
                    this_arg is This
                } else {
                    nullish(this_arg, rule.unresolved_mark)
                },
            }
        },
{
}

proof fn lemma_part_eval_scopes(t: Tree, n: nat, span: Span)
    requires
        n <= children_of(t).len(),
    ensures
        part_eval_scopes(t, n).contains(span) <==> exists|i: int|
            0 <= i < n && eval_scopes(#[trigger] children_of(t)[i]).contains(span),
    decreases n,
{
    if n > 0 {
        lemma_part_eval_scopes(t, (n - 1) as nat, span);
        lemma_contains_concat(
            part_eval_scopes(t, (n - 1) as nat),
            eval_scopes(children_of(t)[n - 1]),
            span,
        );
    }
}

proof fn lemma_contains_concat(a: Seq<Span>, b: Seq<Span>, span: Span)
    ensures
        (a + b).contains(span) <==> a.contains(span) || b.contains(span),
{
    if a.contains(span) {
        let i = choose|i: int| 0 <= i < a.len() && a[i] == span;
        assert((a + b)[i] == span);
    }
    if b.contains(span) {
        let i = choose|i: int| 0 <= i < b.len() && b[i] == span;
        assert((a + b)[a.len() + i] == span);
    }
}

/// The scopes that are collected in a piece of syntax are those that something in it opens.
proof fn lemma_eval_scopes(t: Tree, span: Span)
    ensures
        eval_scopes(t).contains(span) <==> occurs(t, |u: Tree| own_eval_scope(u).contains(span)),
    decreases t,
{
    let what = |u: Tree| own_eval_scope(u).contains(span);
    lemma_occurs(t, what);
    lemma_children_smaller(t);
    lemma_part_eval_scopes(t, children_of(t).len(), span);
    lemma_contains_concat(
        own_eval_scope(t),
        part_eval_scopes(t, children_of(t).len()),
        span,
    );
    assert forall|i: int| 0 <= i < children_of(t).len() implies eval_scopes(
        #[trigger] children_of(t)[i],
    ).contains(span) == occurs(children_of(t)[i], what) by {
        lemma_eval_scopes(children_of(t)[i], span);
    }
}

proof fn lemma_item_eval_scopes(m: ModuleView, n: nat, span: Span)
    requires
        n <= m.body.len(),
    ensures
        item_eval_scopes(m, n).contains(span) <==> exists|i: int|
            0 <= i < n && eval_scopes(#[trigger] m.body[i]).contains(span),
    decreases n,
{
    if n > 0 {
        lemma_item_eval_scopes(m, (n - 1) as nat, span);
        lemma_contains_concat(
            item_eval_scopes(m, (n - 1) as nat),
            eval_scopes(m.body[n - 1]),
            span,
        );
    }
}

/// The scopes that are collected in a module are those that something in it opens and in
/// which a direct call of `eval` runs.
pub proof fn law_eval_scopes_are_all(m: ModuleView, span: Span)
    ensures
        module_eval_scopes(m).contains(span) <==> some_occurs(
            m.body,
            |t: Tree| own_eval_scope(t).contains(span),
        ),
{
    let what = |t: Tree| own_eval_scope(t).contains(span);
    lemma_item_eval_scopes(m, m.body.len(), span);
    assert forall|i: int| 0 <= i < m.body.len() implies eval_scopes(
        #[trigger] m.body[i],
    ).contains(span) == occurs(m.body[i], what) by {
        lemma_eval_scopes(m.body[i], span);
    }
}

/// A call of `Reflect.apply` stays as it is in a scope in which a direct call of `eval`
/// runs, be it that of a function anywhere in the module or that of the module itself.
pub proof fn law_eval_scope_protects(
    rule: SpreadFacts,
    m: ModuleView,
    in_with: bool,
    t: Tree,
    scope: Span,
)
    requires
        knows(rule, m),
        names_reflect_apply(t),
        module_evals(m) || (some_occurs(m.body, |u: Tree| own_eval_scope(u).contains(scope))
            && within(t->Call_span, scope)),
    ensures
        converted(rule, in_with, t) is None,
{
    if !module_evals(m) {
        law_eval_scopes_are_all(m, scope);
        let i = choose|i: int|
            0 <= i < module_eval_scopes(m).len() && module_eval_scopes(m)[i] == scope;
        assert(within(t->Call_span, rule.direct_eval_scopes[i]));
    }
}

/// A call of `Reflect.apply` stays as it is in the body of a `with` statement.
pub proof fn law_with_statement_protects(rule: SpreadFacts, t: Tree)
    requires
        names_reflect_apply(t),
    ensures
        converted(rule, true, t) is None,
{
}

/// Statements of which no two neighbours are a split call stay as they are.
pub proof fn law_other_statements_stay(stmts: Seq<Tree>)
    requires
        forall|i: int|
            0 <= i && i + 1 < stmts.len() ==> split_converted(
                #[trigger] stmts[i],
                stmts[i + 1],
                stmts.skip(i + 2),
            ) is None,
    ensures
        joined(stmts) == stmts,
{
    assert(stmts.take(0) =~= seq![]);
    lemma_stay_from(stmts, 0);
}

proof fn lemma_stay_from(stmts: Seq<Tree>, index: int)
    requires
        0 <= index <= stmts.len(),
        forall|i: int|
            0 <= i && i + 1 < stmts.len() ==> split_converted(
                #[trigger] stmts[i],
                stmts[i + 1],
                stmts.skip(i + 2),
            ) is None,
    ensures
        joined_from(stmts.take(index), stmts, index) == stmts,
    decreases stmts.len() - index,
{
    if index < stmts.len() {
        assert(join_at(stmts.take(index), stmts, index) is None);
        assert(stmts.take(index).push(stmts[index]) =~= stmts.take(index + 1));
        lemma_stay_from(stmts, index + 1);
    } else {
        assert(stmts.take(index) =~= stmts);
    }
}

/// The temporaries of two statements that were joined are gone: the statements before them
/// and behind them neither declare nor use them.
pub proof fn law_joined_temporaries_are_gone(
    done: Seq<Tree>,
    stmts: Seq<Tree>,
    index: int,
    stmt: Tree,
    temps: Seq<IdentView>,
    k: int,
)
    requires
        join_at(done, stmts, index) == Some((stmt, temps)),
        0 <= k < temps.len(),
    ensures
        !some_uses(removed(done, bindings_of(temps)), binding_of(temps[k]), false),
        !declared_uninitialized(removed(done, bindings_of(temps)), binding_of(temps[k])),
        !some_uses(stmts.skip(index + 2), binding_of(temps[k]), false),
{
    let ids = bindings_of(temps);
    assert(ids[k] == binding_of(temps[k]));
    lemma_removed_unused(done, ids, ids[k]);
    lemma_removed_undeclared(done, ids, k);
}

proof fn lemma_kept_decls(decls: Seq<Tree>, ids: Seq<Binding>, id: Binding)
    ensures
        some_uses(kept_decls(decls, ids), id, false) ==> some_uses(decls, id, false),
        forall|i: int|
            0 <= i < kept_decls(decls, ids).len() ==> !one_uninitialized(
                #[trigger] kept_decls(decls, ids)[i],
                ids,
            ),
    decreases decls.len(),
{
    if decls.len() > 0 {
        lemma_kept_decls(decls.drop_last(), ids, id);
        let ahead = kept_decls(decls.drop_last(), ids);
        assert(ahead.push(decls.last()).drop_last() =~= ahead);
    }
}

proof fn lemma_removed_unused(done: Seq<Tree>, ids: Seq<Binding>, id: Binding)
    requires
        !some_uses(done, id, false),
    ensures
        !some_uses(removed(done, ids), id, false),
    decreases done.len(),
{
    if done.len() > 0 {
        lemma_removed_unused(done.drop_last(), ids, id);
        let ahead = removed(done.drop_last(), ids);
        let rest = without_decls(done.last(), ids);
        match done.last() {
            Tree::VarDecl { meta, kind, decls } => {
                let kept = kept_decls(decls, ids);
                let left = Tree::VarDecl { meta, kind, decls: kept };
                lemma_kept_decls(decls, ids, id);
                lemma_list_uses(done.last(), decls.len(), id);
                lemma_list_uses(left, kept.len(), id);
                assert(decls.take(decls.len() as int) =~= decls);
                assert(kept.take(kept.len() as int) =~= kept);
                assert(!uses(done.last(), id, false));
                assert(!uses(left, id, false));
                if rest.len() > 0 {
                    assert((ahead + rest) =~= ahead.push(left));
                    assert((ahead + rest).drop_last() =~= ahead);
                } else {
                    assert((ahead + rest) =~= ahead);
                }
            },
            _ => {
                assert((ahead + rest) =~= ahead.push(done.last()));
                assert((ahead + rest).drop_last() =~= ahead);
            },
        }
    }
}

/// The parts of a declaration are its declarators.
proof fn lemma_list_uses(t: Tree, n: nat, id: Binding)
    requires
        t is VarDecl,
        n <= children_of(t).len(),
    ensures
        part_uses(t, n, id) <==> some_uses(t->VarDecl_decls.take(n as int), id, false),
    decreases n,
{
    let decls = t->VarDecl_decls;
    if n > 0 {
        lemma_list_uses(t, (n - 1) as nat, id);
        assert(decls.take(n as int).drop_last() =~= decls.take(n - 1));
    }
}

proof fn lemma_removed_undeclared(done: Seq<Tree>, ids: Seq<Binding>, k: int)
    requires
        0 <= k < ids.len(),
    ensures
        !declared_uninitialized(removed(done, ids), ids[k]),
    decreases done.len(),
{
    if done.len() > 0 {
        lemma_removed_undeclared(done.drop_last(), ids, k);
        let ahead = removed(done.drop_last(), ids);
        let rest = without_decls(done.last(), ids);
        assert forall|i: int| 0 <= i < (ahead + rest).len() implies !declares_uninitialized(
            #[trigger] (ahead + rest)[i],
            ids[k],
        ) by {
            if i < ahead.len() {
                assert((ahead + rest)[i] == ahead[i]);
            } else {
                assert((ahead + rest)[i] == rest[i - ahead.len()]);
                match done.last() {
                    Tree::VarDecl { meta, kind, decls } => {
                        lemma_kept_decls(decls, ids, ids[k]);
                    },
                    _ => {},
                }
            }
        }
    }
}

/// `t` is a call `function.apply(receiver, arguments)` that can be written as a direct call.
pub open spec fn convertible(t: Tree, mark: Mark) -> bool {
    apply_converted(mark, t) is Some
}

/// `t` keeps a method of the name `apply` in a variable.
pub open spec fn memoizes_apply(t: Tree) -> bool {
    method_assignment(t) matches Some((_, method)) && object_of(method, "apply"@) is Some
}

/// `t` is one of the two.
pub open spec fn unsettled(t: Tree, mark: Mark) -> bool {
    convertible(t, mark) || memoizes_apply(t)
}

/// Nothing in `t` is unsettled.
pub open spec fn settled(t: Tree, mark: Mark) -> bool {
    !occurs(t, |u: Tree| unsettled(u, mark))
}

/// Nothing in the list is unsettled.
pub open spec fn all_settled(list: Seq<Tree>, mark: Mark) -> bool {
    forall|i: int| 0 <= i < list.len() ==> settled(#[trigger] list[i], mark)
}

proof fn lemma_settled(t: Tree, mark: Mark)
    ensures
        settled(t, mark) <==> !unsettled(t, mark) && all_settled(children_of(t), mark),
{
    lemma_occurs(t, |u: Tree| unsettled(u, mark));
}

proof fn lemma_without_parens_settled(t: Tree, mark: Mark)
    requires
        settled(t, mark),
    ensures
        settled(without_parens(t), mark),
    decreases t,
{
    if t is Paren {
        lemma_settled(t, mark);
        assert(children_of(t)[0] == *t->Paren_expr);
        lemma_without_parens_settled(*t->Paren_expr, mark);
    }
}

proof fn lemma_without_types_settled(t: Tree, mark: Mark)
    requires
        settled(t, mark),
    ensures
        settled(without_types(t), mark),
    decreases t,
{
    lemma_settled(t, mark);
    if t is Paren {
        assert(children_of(t)[0] == *t->Paren_expr);
        lemma_without_types_settled(*t->Paren_expr, mark);
    } else if t is Typed {
        assert(children_of(t)[0] == *t->Typed_expr);
        lemma_without_types_settled(*t->Typed_expr, mark);
    }
}

proof fn lemma_spread_arg_settled(arguments: Tree, mark: Mark)
    requires
        settled(arguments, mark),
    ensures
        settled(spread_arg(arguments), mark),
{
    let arg = spread_arg(arguments);
    lemma_settled(arg, mark);
    assert(children_of(arg) =~= seq![arguments]);
}

proof fn lemma_direct_call_settled(
    span: Span,
    ctxt: SyntaxContext,
    callee: Tree,
    arguments: Tree,
    types: Seq<Tree>,
    mark: Mark,
)
    requires
        settled(callee, mark),
        settled(arguments, mark),
        all_settled(types, mark),
    ensures
        settled(direct_spread_call(span, ctxt, callee, arguments, types), mark),
{
    let call = direct_spread_call(span, ctxt, callee, arguments, types);
    lemma_spread_arg_settled(arguments, mark);
    lemma_settled(call, mark);
    assert forall|i: int| 0 <= i < children_of(call).len() implies settled(
        #[trigger] children_of(call)[i],
        mark,
    ) by {
        if i == 0 {
            assert(children_of(call)[0] == callee);
        } else if i == 1 {
            assert(children_of(call)[1] == spread_arg(arguments));
        } else {
            assert(children_of(call)[i] == types[i - 2]);
        }
    }
}

/// The parts of a settled call: its callee, its arguments and its types.
proof fn lemma_call_parts_settled(t: Tree, mark: Mark)
    requires
        t is Call,
        all_settled(children_of(t), mark),
    ensures
        settled(*t->Call_callee, mark),
        all_settled(t->Call_args, mark),
        all_settled(t->Call_types, mark),
{
    let parts = children_of(t);
    let args = t->Call_args;
    assert(parts[0] == *t->Call_callee);
    assert forall|i: int| 0 <= i < args.len() implies settled(#[trigger] args[i], mark) by {
        assert(parts[1 + i] == args[i]);
    }
    assert forall|i: int| 0 <= i < t->Call_types.len() implies settled(
        #[trigger] t->Call_types[i],
        mark,
    ) by {
        assert(parts[1 + args.len() + i] == t->Call_types[i]);
    }
}

proof fn lemma_plain_settled(arg: Tree, mark: Mark)
    requires
        settled(arg, mark),
        plain(arg) is Some,
    ensures
        settled(plain(arg)->0, mark),
{
    lemma_settled(arg, mark);
    assert(children_of(arg)[0] == plain(arg)->0);
}

proof fn lemma_object_settled(t: Tree, name: Seq<char>, mark: Mark)
    requires
        settled(t, mark),
        object_of(t, name) is Some,
    ensures
        settled(object_of(t, name)->0, mark),
{
    lemma_settled(t, mark);
    assert(children_of(t)[0] == object_of(t, name)->0);
}

proof fn lemma_memoized_receiver_settled(receiver_expr: Tree, first_arg: Tree, mark: Mark)
    requires
        settled(receiver_expr, mark),
        memoized_receiver(receiver_expr, first_arg) is Some,
    ensures
        settled(memoized_receiver(receiver_expr, first_arg)->0, mark),
{
    let bare = without_parens(receiver_expr);
    lemma_without_parens_settled(receiver_expr, mark);
    lemma_settled(bare, mark);
    assert(children_of(bare)[1] == *bare->Assign_right);
}

proof fn lemma_member_settled(span: Span, obj: Tree, prop: Tree, mark: Mark)
    requires
        settled(obj, mark),
        settled(prop, mark),
    ensures
        settled(Tree::Member { span, obj: Box::new(obj), prop: Box::new(prop) }, mark),
{
    let member = Tree::Member { span, obj: Box::new(obj), prop: Box::new(prop) };
    lemma_settled(member, mark);
    assert(children_of(member) =~= seq![obj, prop]);
}

proof fn lemma_direct_callee_settled(mark: Mark, function: Tree, this_arg: Tree)
    requires
        settled(function, mark),
        direct_callee(mark, function, this_arg) is Some,
    ensures
        settled(direct_callee(mark, function, this_arg)->0, mark),
{
    match function {
        Tree::Member { span, obj, prop } => {
            lemma_settled(function, mark);
            assert(children_of(function)[0] == *obj);
            assert(children_of(function)[1] == *prop);
            if memoized_receiver(*obj, this_arg) is Some {
                lemma_memoized_receiver_settled(*obj, this_arg, mark);
                lemma_member_settled(
                    span,
                    memoized_receiver(*obj, this_arg)->0,
                    *prop,
                    mark,
                );
            }
        },
        _ => {},
    }
}

proof fn lemma_converted_settled(rule: SpreadFacts, in_with: bool, t: Tree)
    requires
        t is Call,
        all_settled(children_of(t), rule.unresolved_mark),
    ensures
        match converted(rule, in_with, t) {
            Some(direct) => settled(direct, rule.unresolved_mark),
            None => settled(t, rule.unresolved_mark),
        },
{
    let mark = rule.unresolved_mark;
    let args = t->Call_args;
    lemma_call_parts_settled(t, mark);
    match converted(rule, in_with, t) {
        Some(direct) => {
            if names_reflect_apply(t) {
                lemma_plain_settled(args[0], mark);
                lemma_plain_settled(args[2], mark);
                let list = plain(args[2])->0;
                lemma_without_parens_settled(list, mark);
                lemma_without_types_settled(without_parens(list), mark);
                lemma_direct_call_settled(
                    Span::dummy(),
                    SyntaxContext::empty(),
                    plain(args[0])->0,
                    spread_list(list),
                    seq![],
                    mark,
                );
            } else {
                let (function, this_arg, arguments) = apply_parts(t)->0;
                lemma_object_settled(*t->Call_callee, "apply"@, mark);
                lemma_plain_settled(args[1], mark);
                lemma_direct_callee_settled(mark, function, this_arg);
                lemma_direct_call_settled(
                    t->Call_span,
                    t->Call_ctxt,
                    direct_callee(mark, function, this_arg)->0,
                    arguments,
                    t->Call_types,
                    mark,
                );
            }
        },
        None => {
            lemma_settled(t, mark);
        },
    }
}

proof fn lemma_listed_args_settled(t: Tree, mark: Mark)
    requires
        settled(t, mark),
    ensures
        all_settled(listed_args(t), mark),
{
    lemma_settled(t, mark);
    lemma_spread_arg_settled(t, mark);
}

proof fn lemma_split_call_settled(
    span: Span,
    ctxt: SyntaxContext,
    callee: Tree,
    arguments: Tree,
    types: Seq<Tree>,
    mark: Mark,
)
    requires
        settled(callee, mark),
        object_of(callee, "apply"@) is None,
        settled(arguments, mark),
        all_settled(types, mark),
    ensures
        settled(split_call(span, ctxt, callee, arguments, types), mark),
{
    let stmt = split_call(span, ctxt, callee, arguments, types);
    let call = *stmt->ExprStmt_expr;
    let args = listed_args(arguments);
    lemma_listed_args_settled(arguments, mark);
    lemma_settled(stmt, mark);
    lemma_settled(call, mark);
    assert(children_of(stmt) =~= seq![call]);
    assert forall|i: int| 0 <= i < children_of(call).len() implies settled(
        #[trigger] children_of(call)[i],
        mark,
    ) by {
        if i == 0 {
            assert(children_of(call)[0] == callee);
        } else if i <= args.len() {
            assert(children_of(call)[i] == args[i - 1]);
        } else {
            assert(children_of(call)[i] == types[i - 1 - args.len()]);
        }
    }
}

proof fn lemma_split_settled(first: Tree, second: Tree, rest: Seq<Tree>, mark: Mark)
    requires
        settled(first, mark),
        settled(second, mark),
        split_converted(first, second, rest) matches Some(_),
    ensures
        split_converted(first, second, rest) matches Some((stmt, _)) && settled(stmt, mark),
{
    let (temp, method) = method_assignment(first)->0;
    let call = statement_call(second)->0;
    lemma_settled(first, mark);
    lemma_settled(second, mark);
    let assign = *first->ExprStmt_expr;
    assert(children_of(first)[0] == assign);
    assert(children_of(second)[0] == call);
    lemma_settled(assign, mark);
    assert(children_of(assign)[1] == method);
    lemma_settled(method, mark);
    lemma_settled(call, mark);
    lemma_call_parts_settled(call, mark);
    let (function, first_arg, arguments) = apply_parts(call)->0;
    lemma_plain_settled(call->Call_args[1], mark);
    match method {
        Tree::Member { span, obj, prop } => {
            assert(children_of(method)[0] == *obj);
            assert(children_of(method)[1] == *prop);
            let (receiver, temps) = split_receiver(*obj, first_arg)->0;
            if placeless(first_arg) != placeless(*obj) {
                lemma_memoized_receiver_settled(*obj, first_arg, mark);
            }
            lemma_member_settled(span, receiver, *prop, mark);
            lemma_split_call_settled(
                call->Call_span,
                call->Call_ctxt,
                Tree::Member { span, obj: Box::new(receiver), prop },
                arguments,
                call->Call_types,
                mark,
            );
        },
        _ => {},
    }
}

proof fn lemma_kept_decls_settled(decls: Seq<Tree>, ids: Seq<Binding>, mark: Mark)
    requires
        all_settled(decls, mark),
    ensures
        all_settled(kept_decls(decls, ids), mark),
    decreases decls.len(),
{
    if decls.len() > 0 {
        lemma_kept_decls_settled(decls.drop_last(), ids, mark);
    }
}

proof fn lemma_removed_settled(stmts: Seq<Tree>, ids: Seq<Binding>, mark: Mark)
    requires
        all_settled(stmts, mark),
    ensures
        all_settled(removed(stmts, ids), mark),
    decreases stmts.len(),
{
    if stmts.len() > 0 {
        let last = stmts.last();
        lemma_removed_settled(stmts.drop_last(), ids, mark);
        lemma_settled(last, mark);
        match last {
            Tree::VarDecl { meta, kind, decls } => {
                let kept = kept_decls(decls, ids);
                lemma_kept_decls_settled(decls, ids, mark);
                lemma_settled(Tree::VarDecl { meta, kind, decls: kept }, mark);
            },
            _ => {},
        }
    }
}

proof fn lemma_joined_settled(done: Seq<Tree>, stmts: Seq<Tree>, index: int, mark: Mark)
    requires
        all_settled(done, mark),
        all_settled(stmts, mark),
    ensures
        all_settled(joined_from(done, stmts, index), mark),
    decreases stmts.len() - index,
{
    if 0 <= index < stmts.len() {
        match join_at(done, stmts, index) {
            Some((stmt, temps)) => {
                let ids = bindings_of(temps);
                lemma_removed_settled(done, ids, mark);
                lemma_split_settled(
                    stmts[index],
                    stmts[index + 1],
                    stmts.skip(index + 2),
                    mark,
                );
                lemma_joined_settled(removed(done, ids).push(stmt), stmts, index + 2, mark);
            },
            None => {
                lemma_joined_settled(done.push(stmts[index]), stmts, index + 1, mark);
            },
        }
    }
}

/// The rule does not bring in assignments that keep a method of the name `apply`.
proof fn lemma_no_new_memo(rule: SpreadFacts, state: bool, t: Tree)
    requires
        memoizes_apply(rewritten_parts(rule, state, t)),
    ensures
        memoizes_apply(t),
{
    let parts = rewritten_parts(rule, state, t);
    assert(t is ExprStmt);
    let expr = *t->ExprStmt_expr;
    let out = rewritten(rule, state, expr);
    assert(*parts->ExprStmt_expr == out);
    assert(out is Assign);
    assert(expr is Assign);
    let right = *expr->Assign_right;
    let new_right = rewritten(rule, state, right);
    assert(*out->Assign_right == new_right);
    assert(*out->Assign_left == rewritten(rule, state, *expr->Assign_left));
    assert(*expr->Assign_left is PatIdent);
    assert(new_right is Member);
    assert(right is Member);
    let prop = *right->Member_prop;
    assert(*new_right->Member_prop == rewritten(rule, state, prop));
    assert(prop is PropIdent);
}

proof fn lemma_case_settled(span: Span, test: Option<Box<Tree>>, cons: Seq<Tree>, mark: Mark)
    requires
        all_settled(opt_part(test) + cons, mark),
    ensures
        settled(Tree::SwitchCase { span, test, cons: joined(cons) }, mark),
{
    let out = Tree::SwitchCase { span, test, cons: joined(cons) };
    let parts = opt_part(test) + cons;
    let offset = opt_part(test).len();
    assert forall|i: int| 0 <= i < cons.len() implies settled(#[trigger] cons[i], mark) by {
        assert(parts[offset + i] == cons[i]);
    }
    lemma_joined_settled(seq![], cons, 0, mark);
    lemma_settled(out, mark);
    assert forall|i: int| 0 <= i < children_of(out).len() implies settled(
        #[trigger] children_of(out)[i],
        mark,
    ) by {
        if i < offset {
            assert(children_of(out)[i] == parts[i]);
        } else {
            assert(children_of(out)[i] == joined(cons)[i - offset]);
        }
    }
}

/// What the rule makes of syntax whose parts are settled is settled.
proof fn lemma_left_settled(rule: SpreadFacts, state: bool, t: Tree)
    requires
        rule.level.rank() >= RewriteLevel::Standard.rank(),
        all_settled(children_of(t), rule.unresolved_mark),
        !memoizes_apply(t),
    ensures
        settled(rule.left(state, t), rule.unresolved_mark),
{
    let mark = rule.unresolved_mark;
    match t {
        Tree::Call { .. } => {
            lemma_converted_settled(rule, state, t);
        },
        Tree::Block { meta, stmts } => {
            lemma_joined_settled(seq![], stmts, 0, mark);
            lemma_settled(Tree::Block { meta, stmts: joined(stmts) }, mark);
        },
        Tree::FunctionBody { span, stmts } => {
            lemma_joined_settled(seq![], stmts, 0, mark);
            lemma_settled(Tree::FunctionBody { span, stmts: joined(stmts) }, mark);
        },
        Tree::SwitchCase { span, test, cons } => {
            lemma_case_settled(span, test, cons, mark);
        },
        _ => {
            lemma_settled(t, mark);
        },
    }
}

proof fn lemma_all_converted(rule: SpreadFacts, state: bool, t: Tree)
    requires
        rule.level.rank() >= RewriteLevel::Standard.rank(),
        !occurs(t, |u: Tree| memoizes_apply(u)),
    ensures
        settled(rewritten(rule, state, t), rule.unresolved_mark),
    decreases t,
{
    let mark = rule.unresolved_mark;
    let parts = rewritten_parts(rule, state, t);
    lemma_absent_in_parts(t, |u: Tree| memoizes_apply(u));
    lemma_children_smaller(t);
    if t is With {
        assert(children_of(t)[0] == *t->With_obj);
        assert(children_of(t)[1] == *t->With_body);
        lemma_all_converted(rule, state, *t->With_obj);
        lemma_all_converted(rule, true, *t->With_body);
        assert(all_settled(children_of(parts), mark));
    } else {
        law_parts_rewritten(rule, state, t);
        assert forall|i: int| 0 <= i < children_of(parts).len() implies settled(
            #[trigger] children_of(parts)[i],
            mark,
        ) by {
            lemma_all_converted(rule, state, children_of(t)[i]);
        }
    }
    if memoizes_apply(parts) {
        lemma_no_new_memo(rule, state, t);
    }
    lemma_left_settled(rule, state, parts);
}

/// From the standard level on, every call `function.apply(receiver, arguments)` that can be
/// written as a direct call is, wherever it stands; but where a method of the name `apply`
/// is itself kept in a variable.
pub proof fn law_all_applies_converted(rule: SpreadFacts, state: bool, list: Seq<Tree>)
    requires
        rule.level.rank() >= RewriteLevel::Standard.rank(),
        !some_occurs(list, |t: Tree| memoizes_apply(t)),
    ensures
        !some_occurs(
            rewritten_list(rule, state, list),
            |t: Tree| convertible(t, rule.unresolved_mark),
        ),
{
    let mark = rule.unresolved_mark;
    let out = rewritten_list(rule, state, list);
    let left = |t: Tree| convertible(t, mark);
    assert forall|i: int| 0 <= i < out.len() implies !occurs(#[trigger] out[i], left) by {
        lemma_all_converted(rule, state, list[i]);
        if occurs(out[i], left) {
            lemma_occurs_also(out[i], left, |t: Tree| unsettled(t, mark));
        }
    }
}

} // verus!
