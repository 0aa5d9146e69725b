//! What counts as a use of a variable, in the terms of the syntax alone.
use vstd::prelude::*;

use crate::bindings::Binding;
use crate::decl_utils::{opt_uses, part_uses, some_uses, uses};
use crate::forms::{mentions, targets};
use crate::occurs::{lemma_occurs, occurs};
use crate::syntax::Tree;
use crate::walk::{children_of, lemma_children_smaller, opt_part};

verus! {

/// `t` names the variable `id` in the place of a pattern.
pub open spec fn pattern_of(t: Tree, id: Binding) -> bool {
    targets(t, id) || (t matches Tree::PatShorthand { ident, .. } && ident.sym == id.0 && ident.ctxt
        == id.1)
}

/// The part of `t` at the index `i` stands where a declaration names its variables, where
/// `declared` tells whether `t` does.
pub open spec fn declared_part(t: Tree, i: int, declared: bool) -> bool {
    match t {
        Tree::PatArray { elems, .. } => declared && i < elems.len(),
        Tree::PatObject { props, .. } => declared && i < props.len(),
        Tree::PatAssign { .. } => declared && i == 0,
        Tree::PatRest { .. } => declared && i == 0,
        Tree::PatProp { .. } => declared && i == 1,
        Tree::Declarator { .. } => i == 0,
        Tree::Param { decorators, .. } => i == decorators.len(),
        Tree::Arrow { params, .. } => i < params.len(),
        Tree::Catch { param, .. } => param is Some && i == 0,
        _ => false,
    }
}

/// One of the parts of `t` uses `id`.
pub open spec fn used_in_part(t: Tree, id: Binding, declared: bool) -> bool {
    exists|i: int|
        0 <= i < children_of(t).len() && uses(
            #[trigger] children_of(t)[i],
            id,
            declared_part(t, i, declared),
        )
}

/// A list uses `id` if one of its pieces does.
pub proof fn law_lists_that_use(list: Seq<Tree>, id: Binding, declared: bool)
    ensures
        some_uses(list, id, declared) <==> exists|i: int|
            0 <= i < list.len() && uses(#[trigger] list[i], id, declared),
    decreases list.len(),
{
    if list.len() > 0 {
        let ahead = list.drop_last();
        law_lists_that_use(ahead, id, declared);
        if some_uses(ahead, id, declared) {
            let i = choose|i: int| 0 <= i < ahead.len() && uses(#[trigger] ahead[i], id, declared);
            assert(list[i] == ahead[i]);
        }
        assert(list[list.len() - 1] == list.last());
        if exists|i: int| 0 <= i < list.len() && uses(#[trigger] list[i], id, declared) {
            let i = choose|i: int| 0 <= i < list.len() && uses(#[trigger] list[i], id, declared);
            if i < ahead.len() {
                assert(ahead[i] == list[i]);
            }
        }
    }
}

proof fn lemma_part_uses(t: Tree, n: nat, id: Binding)
    requires
        n <= children_of(t).len(),
    ensures
        part_uses(t, n, id) <==> exists|i: int|
            0 <= i < n && uses(#[trigger] children_of(t)[i], id, false),
    decreases n,
{
    if n > 0 {
        lemma_part_uses(t, (n - 1) as nat, id);
        if part_uses(t, n, id) && !part_uses(t, (n - 1) as nat, id) {
            assert(uses(children_of(t)[n - 1], id, false));
        }
    }
}

/// A run of the parts of `t` uses `id` if one of the parts in it does.
spec fn used_in_run(t: Tree, from: int, n: int, id: Binding, declared: bool) -> bool {
    exists|i: int|
        from <= i < from + n && uses(
            #[trigger] children_of(t)[i],
            id,
            declared_part(t, i, declared),
        )
}

proof fn lemma_run_uses(
    t: Tree,
    list: Seq<Tree>,
    from: int,
    id: Binding,
    here: bool,
    declared: bool,
)
    requires
        0 <= from,
        from + list.len() <= children_of(t).len(),
        forall|k: int| 0 <= k < list.len() ==> #[trigger] list[k] == children_of(t)[from + k],
        forall|i: int|
            from <= i < from + list.len() ==> #[trigger] declared_part(t, i, declared) == here,
    ensures
        some_uses(list, id, here) <==> used_in_run(t, from, list.len() as int, id, declared),
{
    law_lists_that_use(list, id, here);
    if some_uses(list, id, here) {
        let k = choose|k: int| 0 <= k < list.len() && uses(#[trigger] list[k], id, here);
        assert(declared_part(t, from + k, declared) == here);
        assert(uses(children_of(t)[from + k], id, declared_part(t, from + k, declared)));
    }
    if used_in_run(t, from, list.len() as int, id, declared) {
        let i = choose|i: int|
            from <= i < from + list.len() && uses(
                #[trigger] children_of(t)[i],
                id,
                declared_part(t, i, declared),
            );
        assert(list[i - from] == children_of(t)[i]);
        assert(declared_part(t, i, declared) == here);
    }
}

proof fn lemma_one_run(t: Tree, at: int, id: Binding, declared: bool)
    ensures
        used_in_run(t, at, 1, id, declared) <==> uses(
            children_of(t)[at],
            id,
            declared_part(t, at, declared),
        ),
{
    if uses(children_of(t)[at], id, declared_part(t, at, declared)) {
        assert(at <= at < at + 1);
    }
}

proof fn lemma_two_runs(t: Tree, n: int, k: int, id: Binding, declared: bool)
    requires
        0 <= n,
        0 <= k,
        n + k == children_of(t).len(),
    ensures
        used_in_part(t, id, declared) <==> used_in_run(t, 0, n, id, declared) || used_in_run(
            t,
            n,
            k,
            id,
            declared,
        ),
{
    if used_in_part(t, id, declared) {
        let i = choose|i: int|
            0 <= i < children_of(t).len() && uses(
                #[trigger] children_of(t)[i],
                id,
                declared_part(t, i, declared),
            );
        assert(i < n || n <= i < n + k);
    }
    if used_in_run(t, 0, n, id, declared) {
        let i = choose|i: int|
            0 <= i < 0 + n && uses(
                #[trigger] children_of(t)[i],
                id,
                declared_part(t, i, declared),
            );
        assert(0 <= i < children_of(t).len());
    }
    if used_in_run(t, n, k, id, declared) {
        let i = choose|i: int|
            n <= i < n + k && uses(
                #[trigger] children_of(t)[i],
                id,
                declared_part(t, i, declared),
            );
        assert(0 <= i < children_of(t).len());
    }
}

/// A variable is used where it is read, where a pattern names it that is not that of a
/// declaration, and where one of the parts uses it.
pub proof fn law_uses_by_parts(t: Tree, id: Binding, declared: bool)
    ensures
        uses(t, id, declared) <==> mentions(t, id) || (pattern_of(t, id) && !declared)
            || used_in_part(t, id, declared),
{
    let parts = children_of(t);
    match t {
        Tree::PatIdent { types, .. } => {
            lemma_run_uses(t, types, 0, id, false, declared);
            lemma_two_runs(t, types.len() as int, 0, id, declared);
        },
        Tree::PatShorthand { types, value, .. } => {
            lemma_run_uses(t, types, 0, id, false, declared);
            lemma_two_runs(t, types.len() as int, opt_part(value).len() as int, id, declared);
            lemma_one_run(t, types.len() as int, id, declared);
            if value is Some {
                assert(parts[types.len() as int] == *value->0);
            }
            assert(opt_uses(value, id, false) == (value is Some && uses(*value->0, id, false)));
        },
        Tree::PatArray { elems, types, .. } => {
            lemma_run_uses(t, elems, 0, id, declared, declared);
            lemma_run_uses(t, types, elems.len() as int, id, false, declared);
            lemma_two_runs(t, elems.len() as int, types.len() as int, id, declared);
        },
        Tree::PatObject { props, types, .. } => {
            lemma_run_uses(t, props, 0, id, declared, declared);
            lemma_run_uses(t, types, props.len() as int, id, false, declared);
            lemma_two_runs(t, props.len() as int, types.len() as int, id, declared);
        },
        Tree::PatAssign { left, right, .. } => {
            assert(parts[0] == *left && parts[1] == *right);
            lemma_two_runs(t, 1, 1, id, declared);
            lemma_one_run(t, 0, id, declared);
            lemma_one_run(t, 1, id, declared);
        },
        Tree::PatRest { arg, types, .. } => {
            assert(parts[0] == *arg);
            lemma_run_uses(t, types, 1, id, false, declared);
            lemma_two_runs(t, 1, types.len() as int, id, declared);
            lemma_one_run(t, 0, id, declared);
        },
        Tree::PatProp { key, value } => {
            assert(parts[0] == *key && parts[1] == *value);
            lemma_two_runs(t, 1, 1, id, declared);
            lemma_one_run(t, 0, id, declared);
            lemma_one_run(t, 1, id, declared);
        },
        Tree::Declarator { name, init, .. } => {
            assert(parts[0] == *name);
            lemma_two_runs(t, 1, opt_part(init).len() as int, id, declared);
            lemma_one_run(t, 0, id, declared);
            lemma_one_run(t, 1, id, declared);
            if init is Some {
                assert(parts[1] == *init->0);
            }
            assert(opt_uses(init, id, false) == (init is Some && uses(*init->0, id, false)));
        },
        Tree::Param { decorators, pat, .. } => {
            assert(parts[decorators.len() as int] == *pat);
            lemma_run_uses(t, decorators, 0, id, false, declared);
            lemma_two_runs(t, decorators.len() as int, 1, id, declared);
            lemma_one_run(t, decorators.len() as int, id, declared);
        },
        Tree::Arrow { params, body, types, .. } => {
            let n = params.len() as int;
            assert(parts[n] == *body);
            lemma_run_uses(t, params, 0, id, true, declared);
            lemma_run_uses(t, types, n + 1, id, false, declared);
            lemma_two_runs(t, n, 1 + types.len() as int, id, declared);
            lemma_one_run(t, n, id, declared);
            lemma_split_run(t, n, types.len() as int, id, declared);
        },
        Tree::Catch { param, body, .. } => {
            let n = opt_part(param).len() as int;
            assert(parts[n] == *body);
            lemma_two_runs(t, n, 1, id, declared);
            lemma_one_run(t, n, id, declared);
            lemma_one_run(t, 0, id, declared);
            if param is Some {
                assert(parts[0] == *param->0);
            }
            assert(opt_uses(param, id, true) == (param is Some && uses(*param->0, id, true)));
        },
        _ => {
            lemma_part_uses(t, parts.len(), id);
            if part_uses(t, parts.len(), id) {
                let i = choose|i: int| 0 <= i < parts.len() && uses(#[trigger] parts[i], id, false);
                assert(uses(parts[i], id, declared_part(t, i, declared)));
            }
            if used_in_part(t, id, declared) {
                let i = choose|i: int|
                    0 <= i < parts.len() && uses(
                        #[trigger] parts[i],
                        id,
                        declared_part(t, i, declared),
                    );
                assert(uses(parts[i], id, false));
            }
        },
    }
}

proof fn lemma_split_run(t: Tree, n: int, k: int, id: Binding, declared: bool)
    requires
        0 <= k,
    ensures
        used_in_run(t, n, 1 + k, id, declared) <==> used_in_run(t, n, 1, id, declared)
            || used_in_run(t, n + 1, k, id, declared),
{
    if used_in_run(t, n, 1 + k, id, declared) {
        let i = choose|i: int|
            n <= i < n + (1 + k) && uses(
                #[trigger] children_of(t)[i],
                id,
                declared_part(t, i, declared),
            );
        assert(n <= i < n + 1 || n + 1 <= i < n + 1 + k);
    }
    if used_in_run(t, n, 1, id, declared) {
        let i = choose|i: int|
            n <= i < n + 1 && uses(
                #[trigger] children_of(t)[i],
                id,
                declared_part(t, i, declared),
            );
        assert(n <= i < n + (1 + k));
    }
    if used_in_run(t, n + 1, k, id, declared) {
        let i = choose|i: int|
            n + 1 <= i < n + 1 + k && uses(
                #[trigger] children_of(t)[i],
                id,
                declared_part(t, i, declared),
            );
        assert(n <= i < n + (1 + k));
    }
}

/// A variable that is read anywhere in a piece of syntax is used there.
pub proof fn law_reading_is_using(t: Tree, id: Binding, declared: bool)
    requires
        occurs(t, |u: Tree| mentions(u, id)),
    ensures
        uses(t, id, declared),
    decreases t,
{
    let what = |u: Tree| mentions(u, id);
    lemma_occurs(t, what);
    law_uses_by_parts(t, id, declared);
    if !what(t) {
        lemma_children_smaller(t);
        let i = choose|i: int|
            0 <= i < children_of(t).len() && occurs(#[trigger] children_of(t)[i], what);
        law_reading_is_using(children_of(t)[i], id, declared_part(t, i, declared));
    }
}

/// A variable that is not named in a piece of syntax is not used there.
pub proof fn law_using_is_naming(t: Tree, id: Binding, declared: bool)
    requires
        uses(t, id, declared),
    ensures
        occurs(t, |u: Tree| mentions(u, id) || pattern_of(u, id)),
    decreases t,
{
    let what = |u: Tree| mentions(u, id) || pattern_of(u, id);
    lemma_occurs(t, what);
    law_uses_by_parts(t, id, declared);
    if !what(t) {
        lemma_children_smaller(t);
        let i = choose|i: int|
            0 <= i < children_of(t).len() && uses(
                #[trigger] children_of(t)[i],
                id,
                declared_part(t, i, declared),
            );
        law_using_is_naming(children_of(t)[i], id, declared_part(t, i, declared));
    }
}

} // verus!
