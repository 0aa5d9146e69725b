//! What holds of the recovery of `Object.hasOwn` as a whole.
use vstd::prelude::*;

use crate::bindings::Binding;
use crate::forms::{
    bare, free, law_parentheses_come_off, mentions, owner, targets, unspread,
};
use crate::occurs::{
    lemma_met, lemma_met_list, lemma_occurs, occurs, preorder, preorder_list, preorder_parts,
    some_occurs,
};
use crate::rewrite::{
    lemma_rewritten_list, rewritten, rewritten_list, rewritten_parts, Rewriting,
};
use crate::rewrite_laws::{law_parts_rewritten, law_quiet_list, lemma_parts_settled};
use crate::rewrite_level::RewriteLevel;
use crate::syntax::{IdentView, Mark, ModuleView, Span, SyntaxContext, Tree, UnaryOp};
use crate::un_has_own_call::{
    has_own_call, has_own_member, inner_object, nothing_found, recovered, recovered_module, scanned,
    scanned_items, scanned_parts, unsafe_write, Found, UnHasOwnCall,
};
use crate::walk::{children_of, lemma_children_smaller};

verus! {

broadcast use lemma_rewritten_list;

/// Below the aggressive level the rule changes nothing.
pub proof fn law_recovery_is_aggressive_only(m: ModuleView, level: RewriteLevel, mark: Mark)
    requires
        level != RewriteLevel::Aggressive,
    ensures
        recovered_module(m, level, mark) == m,
{
    let rule = UnHasOwnCall { level, unresolved_mark: mark, blocked: unsafe_write(m, mark) };
    law_quiet_list(rule, |state: bool| true, false, m.body);
}

/// One unsafe write anywhere in a module keeps every call in it as it is, those before the
/// write and those behind it.
pub proof fn law_unsafe_write_blocks_all(m: ModuleView, level: RewriteLevel, mark: Mark)
    requires
        unsafe_write(m, mark),
    ensures
        recovered_module(m, level, mark) == m,
{
    let rule = UnHasOwnCall { level, unresolved_mark: mark, blocked: true };
    law_quiet_list(rule, |state: bool| true, false, m.body);
}

/// What was found before is still found.
pub open spec fn kept(before: Found, after: Found) -> bool {
    &&& before.blocked ==> after.blocked
    &&& before.object_aliases.subset_of(after.object_aliases)
    &&& before.prototype_aliases.subset_of(after.prototype_aliases)
}

/// The walk through a module forgets nothing that it found.
pub proof fn law_scan_forgets_nothing(found: Found, t: Tree, mark: Mark, writing: bool)
    ensures
        kept(found, scanned(found, t, mark, writing)),
    decreases t, children_of(t).len() + 1,
{
    let noted = found.note(t, mark, writing);
    match t {
        Tree::Assign { left, right, .. } => {
            law_scan_forgets_nothing(noted, *left, mark, true);
            law_scan_forgets_nothing(scanned(noted, *left, mark, true), *right, mark, writing);
        },
        Tree::Update { arg, .. } => {
            law_scan_forgets_nothing(noted, *arg, mark, true);
        },
        Tree::Unary { op, arg, .. } => {
            law_scan_forgets_nothing(noted, *arg, mark, writing || op == UnaryOp::Delete);
        },
        _ => {
            lemma_parts_forget_nothing(noted, t, children_of(t).len(), mark, writing);
        },
    }
}

proof fn lemma_parts_forget_nothing(found: Found, t: Tree, n: nat, mark: Mark, writing: bool)
    ensures
        kept(found, scanned_parts(found, t, n, mark, writing)),
    decreases t, n,
{
    if 0 < n <= children_of(t).len() {
        lemma_children_smaller(t);
        lemma_parts_forget_nothing(found, t, (n - 1) as nat, mark, writing);
        law_scan_forgets_nothing(
            scanned_parts(found, t, (n - 1) as nat, mark, writing),
            children_of(t)[n - 1],
            mark,
            writing,
        );
    }
}

/// `t` declares the variable `id` as the global `Object`.
pub open spec fn declares_object(t: Tree, id: Binding, mark: Mark) -> bool {
    t matches Tree::Declarator { name, init: Some(init), .. } && targets(*name, id) && free(
        *init,
        "Object"@,
        mark,
    )
}

/// What is found once syntax is seen is still found once its parts are.
proof fn lemma_noted_stays(found: Found, t: Tree, mark: Mark, writing: bool)
    ensures
        kept(found.note(t, mark, writing), scanned(found, t, mark, writing)),
{
    let noted = found.note(t, mark, writing);
    match t {
        Tree::Assign { left, right, .. } => {
            law_scan_forgets_nothing(noted, *left, mark, true);
            law_scan_forgets_nothing(scanned(noted, *left, mark, true), *right, mark, writing);
        },
        Tree::Update { arg, .. } => {
            law_scan_forgets_nothing(noted, *arg, mark, true);
        },
        Tree::Unary { op, arg, .. } => {
            law_scan_forgets_nothing(noted, *arg, mark, writing || op == UnaryOp::Delete);
        },
        _ => {
            lemma_parts_forget_nothing(noted, t, children_of(t).len(), mark, writing);
        },
    }
}

/// One step of the walk: what was found before it, what is met, and whether that stands in
/// what is written to.
ghost struct Visit {
    found: Found,
    t: Tree,
    writing: bool,
}

/// The steps of the walk through `t`.
spec fn visits(found: Found, t: Tree, mark: Mark, writing: bool) -> Seq<Visit>
    decreases t, children_of(t).len() + 1,
{
    let noted = found.note(t, mark, writing);
    seq![Visit { found, t, writing }] + match t {
        Tree::Assign { left, right, .. } => visits(noted, *left, mark, true) + visits(
            scanned(noted, *left, mark, true),
            *right,
            mark,
            writing,
        ),
        Tree::Update { arg, .. } => visits(noted, *arg, mark, true),
        Tree::Unary { op, arg, .. } => visits(
            noted,
            *arg,
            mark,
            writing || op == UnaryOp::Delete,
        ),
        _ => part_visits(noted, t, children_of(t).len(), mark, writing),
    }
}

/// The steps of the walk through the first `n` parts of `t`.
spec fn part_visits(found: Found, t: Tree, n: nat, mark: Mark, writing: bool) -> Seq<Visit>
    decreases t, n,
{
    if 0 < n <= children_of(t).len() {
        part_visits(found, t, (n - 1) as nat, mark, writing) + {
            proof {
                lemma_children_smaller(t);
            }
            visits(
                scanned_parts(found, t, (n - 1) as nat, mark, writing),
                children_of(t)[n - 1],
                mark,
                writing,
            )
        }
    } else {
        seq![]
    }
}

/// The steps of the walk through the items of a module.
spec fn item_visits(items: Seq<Tree>, mark: Mark) -> Seq<Visit>
    decreases items.len(),
{
    if items.len() == 0 {
        seq![]
    } else {
        item_visits(items.drop_last(), mark) + visits(
            scanned_items(items.drop_last(), mark),
            items.last(),
            mark,
            false,
        )
    }
}

/// One of the first `n` steps meets a declaration of `id` as `Object`.
spec fn declared_among(steps: Seq<Visit>, n: int, id: Binding, mark: Mark) -> bool {
    exists|k: int| 0 <= k < n && declares_object((#[trigger] steps[k]).t, id, mark)
}

/// The steps lead from what is found before them to what is found after them, and meet
/// `trace`: nothing that is found is forgotten, and a variable counts as `Object` only if
/// it was declared as it before.
spec fn leads(
    steps: Seq<Visit>,
    before: Found,
    after: Found,
    trace: Seq<Tree>,
    mark: Mark,
) -> bool {
    &&& kept(before, after)
    &&& steps.len() == trace.len()
    &&& forall|i: int| 0 <= i < steps.len() ==> (#[trigger] steps[i]).t == trace[i]
    &&& forall|i: int|
        0 <= i < steps.len() ==> kept(before, (#[trigger] steps[i]).found) && kept(
            scanned(steps[i].found, steps[i].t, mark, steps[i].writing),
            after,
        )
    &&& forall|i: int, j: int|
        0 <= i < j < steps.len() ==> kept(
            (#[trigger] steps[i]).found.note(steps[i].t, mark, steps[i].writing),
            (#[trigger] steps[j]).found,
        )
    &&& forall|i: int, id: Binding|
        0 <= i < steps.len() && #[trigger] steps[i].found.object_aliases.contains(id)
            ==> before.object_aliases.contains(id) || declared_among(steps, i, id, mark)
    &&& forall|id: Binding| #[trigger]
        after.object_aliases.contains(id) ==> before.object_aliases.contains(id)
            || declared_among(steps, steps.len() as int, id, mark)
}

proof fn lemma_declared_concat(a: Seq<Visit>, b: Seq<Visit>, id: Binding, mark: Mark)
    ensures
        forall|n: int|
            0 <= n <= a.len() && #[trigger] declared_among(a, n, id, mark) ==> declared_among(
                a + b,
                n,
                id,
                mark,
            ),
        declared_among(a, a.len() as int, id, mark) ==> forall|n: int|
            a.len() <= n ==> #[trigger] declared_among(a + b, n, id, mark),
        forall|n: int|
            0 <= n <= b.len() && #[trigger] declared_among(b, n, id, mark) ==> declared_among(
                a + b,
                a.len() + n,
                id,
                mark,
            ),
{
    let all = a + b;
    assert forall|n: int| 0 <= n <= a.len() && #[trigger] declared_among(a, n, id, mark) implies
        declared_among(all, n, id, mark) by {
        let k = choose|k: int| 0 <= k < n && declares_object((#[trigger] a[k]).t, id, mark);
        assert(all[k] == a[k]);
    }
    if declared_among(a, a.len() as int, id, mark) {
        let k = choose|k: int| 0 <= k < a.len() && declares_object((#[trigger] a[k]).t, id, mark);
        assert(all[k] == a[k]);
    }
    assert forall|n: int| 0 <= n <= b.len() && #[trigger] declared_among(b, n, id, mark) implies
        declared_among(all, a.len() + n, id, mark) by {
        let k = choose|k: int| 0 <= k < n && declares_object((#[trigger] b[k]).t, id, mark);
        assert(all[a.len() + k] == b[k]);
    }
}

proof fn lemma_leads_concat(
    a: Seq<Visit>,
    b: Seq<Visit>,
    before: Found,
    between: Found,
    after: Found,
    trace_a: Seq<Tree>,
    trace_b: Seq<Tree>,
    mark: Mark,
)
    requires
        leads(a, before, between, trace_a, mark),
        leads(b, between, after, trace_b, mark),
    ensures
        leads(a + b, before, after, trace_a + trace_b, mark),
{
    let steps = a + b;
    let trace = trace_a + trace_b;
    assert forall|i: int| 0 <= i < steps.len() implies (#[trigger] steps[i]).t == trace[i] by {
        if i < a.len() {
            assert(steps[i] == a[i]);
        } else {
            assert(steps[i] == b[i - a.len()]);
        }
    }
    assert forall|i: int| 0 <= i < steps.len() implies kept(before, (#[trigger] steps[i]).found)
        && kept(scanned(steps[i].found, steps[i].t, mark, steps[i].writing), after) by {
        if i < a.len() {
            assert(steps[i] == a[i]);
        } else {
            assert(steps[i] == b[i - a.len()]);
        }
    }
    assert forall|i: int, j: int| 0 <= i < j < steps.len() implies kept(
        (#[trigger] steps[i]).found.note(steps[i].t, mark, steps[i].writing),
        (#[trigger] steps[j]).found,
    ) by {
        if j < a.len() {
            assert(steps[i] == a[i] && steps[j] == a[j]);
        } else if i >= a.len() {
            assert(steps[i] == b[i - a.len()] && steps[j] == b[j - a.len()]);
        } else {
            assert(steps[i] == a[i] && steps[j] == b[j - a.len()]);
            lemma_noted_stays(a[i].found, a[i].t, mark, a[i].writing);
        }
    }
    assert forall|i: int, id: Binding|
        0 <= i < steps.len() && #[trigger] steps[i].found.object_aliases.contains(id) implies
        before.object_aliases.contains(id) || declared_among(steps, i, id, mark) by {
        lemma_declared_concat(a, b, id, mark);
        if i < a.len() {
            assert(a[i].found.object_aliases.contains(id));
        } else {
            assert(b[i - a.len()].found.object_aliases.contains(id));
            if between.object_aliases.contains(id) && !before.object_aliases.contains(id) {
                assert(declared_among(a, a.len() as int, id, mark));
            }
        }
    }
    assert forall|id: Binding| #[trigger] after.object_aliases.contains(id) implies
        before.object_aliases.contains(id) || declared_among(
        steps,
        steps.len() as int,
        id,
        mark,
    ) by {
        lemma_declared_concat(a, b, id, mark);
        if between.object_aliases.contains(id) && !before.object_aliases.contains(id) {
            assert(declared_among(a, a.len() as int, id, mark));
        }
    }
}

/// A step and the steps through the parts of what it meets.
proof fn lemma_leads_inside(
    rest: Seq<Visit>,
    found: Found,
    t: Tree,
    trace: Seq<Tree>,
    mark: Mark,
    writing: bool,
)
    requires
        leads(
            rest,
            found.note(t, mark, writing),
            scanned(found, t, mark, writing),
            trace,
            mark,
        ),
    ensures
        leads(
            seq![Visit { found, t, writing }] + rest,
            found,
            scanned(found, t, mark, writing),
            seq![t] + trace,
            mark,
        ),
{
    let head = Visit { found, t, writing };
    let steps = seq![head] + rest;
    let noted = found.note(t, mark, writing);
    let after = scanned(found, t, mark, writing);
    assert(kept(found, noted));
    assert(steps[0] == head);
    assert forall|i: int| 0 < i < steps.len() implies #[trigger] steps[i] == rest[i - 1] by {}
    assert forall|i: int, j: int| 0 <= i < j < steps.len() implies kept(
        (#[trigger] steps[i]).found.note(steps[i].t, mark, steps[i].writing),
        (#[trigger] steps[j]).found,
    ) by {
        if i > 0 {
            assert(steps[i] == rest[i - 1]);
        }
        assert(steps[j] == rest[j - 1]);
    }
    assert forall|id: Binding| #[trigger] noted.object_aliases.contains(id) implies
        found.object_aliases.contains(id) || declares_object(t, id, mark) by {}
    assert forall|i: int, id: Binding|
        0 <= i < steps.len() && #[trigger] steps[i].found.object_aliases.contains(id) implies
        found.object_aliases.contains(id) || declared_among(steps, i, id, mark) by {
        if i > 0 {
            lemma_declared_concat(seq![head], rest, id, mark);
            assert(rest[i - 1].found.object_aliases.contains(id));
            if noted.object_aliases.contains(id) && !found.object_aliases.contains(id) {
                assert(declares_object(steps[0].t, id, mark));
            }
        }
    }
    assert forall|id: Binding| #[trigger] after.object_aliases.contains(id) implies
        found.object_aliases.contains(id) || declared_among(
        steps,
        steps.len() as int,
        id,
        mark,
    ) by {
        lemma_declared_concat(seq![head], rest, id, mark);
        if noted.object_aliases.contains(id) && !found.object_aliases.contains(id) {
            assert(declares_object(steps[0].t, id, mark));
        }
    }
}

/// The walk through a piece of syntax meets it and all that is in it.
proof fn lemma_visits(found: Found, t: Tree, mark: Mark, writing: bool)
    ensures
        leads(
            visits(found, t, mark, writing),
            found,
            scanned(found, t, mark, writing),
            preorder(t),
            mark,
        ),
    decreases t, children_of(t).len() + 1,
{
    let noted = found.note(t, mark, writing);
    let trace = preorder_parts(t, children_of(t).len());
    let after = scanned(found, t, mark, writing);
    let rest = match t {
        Tree::Assign { left, right, .. } => {
            let half = scanned(noted, *left, mark, true);
            lemma_visits(noted, *left, mark, true);
            lemma_visits(half, *right, mark, writing);
            lemma_leads_concat(
                visits(noted, *left, mark, true),
                visits(half, *right, mark, writing),
                noted,
                half,
                after,
                preorder(*left),
                preorder(*right),
                mark,
            );
            lemma_two_parts(t, *left, *right);
            visits(noted, *left, mark, true) + visits(half, *right, mark, writing)
        },
        Tree::Update { arg, .. } => {
            lemma_visits(noted, *arg, mark, true);
            lemma_one_part(t, *arg);
            visits(noted, *arg, mark, true)
        },
        Tree::Unary { op, arg, .. } => {
            lemma_visits(noted, *arg, mark, writing || op == UnaryOp::Delete);
            lemma_one_part(t, *arg);
            visits(noted, *arg, mark, writing || op == UnaryOp::Delete)
        },
        _ => {
            lemma_part_visits(noted, t, children_of(t).len(), mark, writing);
            part_visits(noted, t, children_of(t).len(), mark, writing)
        },
    };
    lemma_leads_inside(rest, found, t, trace, mark, writing);
}

proof fn lemma_one_part(t: Tree, part: Tree)
    requires
        children_of(t) == seq![part],
    ensures
        preorder_parts(t, children_of(t).len()) == preorder(part),
{
    assert(preorder_parts(t, 0) =~= seq![]);
    assert(preorder_parts(t, 1) =~= preorder_parts(t, 0) + preorder(part));
    assert(preorder_parts(t, 1) =~= preorder(part));
}

proof fn lemma_two_parts(t: Tree, first: Tree, second: Tree)
    requires
        children_of(t) == seq![first] + seq![second],
    ensures
        preorder_parts(t, children_of(t).len()) == preorder(first) + preorder(second),
{
    assert(children_of(t)[0] == first && children_of(t)[1] == second);
    assert(preorder_parts(t, 0) =~= seq![]);
    assert(preorder_parts(t, 1) =~= preorder_parts(t, 0) + preorder(first));
    assert(preorder_parts(t, 2) =~= preorder_parts(t, 1) + preorder(second));
    assert(preorder_parts(t, 1) =~= preorder(first));
}

proof fn lemma_part_visits(found: Found, t: Tree, n: nat, mark: Mark, writing: bool)
    ensures
        leads(
            part_visits(found, t, n, mark, writing),
            found,
            scanned_parts(found, t, n, mark, writing),
            preorder_parts(t, n),
            mark,
        ),
    decreases t, n,
{
    if 0 < n <= children_of(t).len() {
        lemma_children_smaller(t);
        let ahead = scanned_parts(found, t, (n - 1) as nat, mark, writing);
        lemma_part_visits(found, t, (n - 1) as nat, mark, writing);
        lemma_visits(ahead, children_of(t)[n - 1], mark, writing);
        lemma_leads_concat(
            part_visits(found, t, (n - 1) as nat, mark, writing),
            visits(ahead, children_of(t)[n - 1], mark, writing),
            found,
            ahead,
            scanned_parts(found, t, n, mark, writing),
            preorder_parts(t, (n - 1) as nat),
            preorder(children_of(t)[n - 1]),
            mark,
        );
    }
}

/// The walk through a module meets its items and all that is in them.
proof fn lemma_item_visits(items: Seq<Tree>, mark: Mark)
    ensures
        leads(
            item_visits(items, mark),
            nothing_found(),
            scanned_items(items, mark),
            preorder_list(items),
            mark,
        ),
    decreases items.len(),
{
    if items.len() > 0 {
        let ahead = scanned_items(items.drop_last(), mark);
        lemma_item_visits(items.drop_last(), mark);
        lemma_visits(ahead, items.last(), mark, false);
        lemma_leads_concat(
            item_visits(items.drop_last(), mark),
            visits(ahead, items.last(), mark, false),
            nothing_found(),
            ahead,
            scanned_items(items, mark),
            preorder_list(items.drop_last()),
            preorder(items.last()),
            mark,
        );
    }
}

/// `t` is code whose names may mean anything: a `with` statement, or a direct call of the
/// global `eval`.
pub open spec fn dynamic_code(t: Tree, mark: Mark) -> bool {
    t is With || (t matches Tree::Call { callee, .. } && free(*callee, "eval"@, mark))
}

/// A `with` statement or a direct call of `eval` anywhere in a module stops the rule.
pub proof fn law_dynamic_code_blocks(m: ModuleView, mark: Mark)
    requires
        some_occurs(m.body, |t: Tree| dynamic_code(t, mark)),
    ensures
        unsafe_write(m, mark),
{
    let what = |t: Tree| dynamic_code(t, mark);
    let trace = preorder_list(m.body);
    let steps = item_visits(m.body, mark);
    lemma_met_list(m.body, what);
    lemma_item_visits(m.body, mark);
    let i = choose|i: int| 0 <= i < trace.len() && what(#[trigger] trace[i]);
    let step = steps[i];
    lemma_noted_stays(step.found, step.t, mark, step.writing);
}

/// What `t` writes to: the target of an assignment or of an update, or what is deleted.
pub open spec fn written(t: Tree) -> Option<Tree> {
    match t {
        Tree::Assign { left, .. } => Some(*left),
        Tree::Update { arg, .. } => Some(*arg),
        Tree::Unary { op, arg, .. } => if op == UnaryOp::Delete {
            Some(*arg)
        } else {
            None
        },
        _ => None,
    }
}

/// `ident` is the global `Object`.
pub open spec fn object_ident(ident: IdentView, mark: Mark) -> bool {
    ident.sym == "Object"@ && ident.ctxt.outer == mark.id
}

/// `t` names the global `Object`, be it that it reads it, writes to it or declares it.
pub open spec fn names_object(t: Tree, mark: Mark) -> bool {
    match t {
        Tree::Ident { ident } => object_ident(ident, mark),
        Tree::PatIdent { ident, .. } => object_ident(ident, mark),
        Tree::PatShorthand { ident, .. } => object_ident(ident, mark),
        Tree::FnDecl { ident, .. } => object_ident(ident, mark),
        Tree::ClassDecl { ident, .. } => object_ident(ident, mark),
        Tree::Specifier { local, .. } => object_ident(local, mark),
        Tree::FnExpr { name: Some(name), .. } => object_ident(name, mark),
        Tree::ClassExpr { name: Some(name), .. } => object_ident(name, mark),
        _ => false,
    }
}

/// `t` writes to something in which the global `Object` stands: to `Object` itself, to
/// `Object.prototype`, to `Object.prototype.hasOwnProperty` and the like.
pub open spec fn writes_through_object(t: Tree, mark: Mark) -> bool {
    written(t) is Some && occurs(written(t)->0, |u: Tree| names_object(u, mark))
}

/// All that is met in what is written to is met as written to.
proof fn lemma_all_writing(found: Found, t: Tree, mark: Mark)
    ensures
        forall|i: int|
            0 <= i < visits(found, t, mark, true).len() ==> (#[trigger] visits(
                found,
                t,
                mark,
                true,
            )[i]).writing,
    decreases t, children_of(t).len() + 1,
{
    let noted = found.note(t, mark, true);
    match t {
        Tree::Assign { left, right, .. } => {
            lemma_all_writing(noted, *left, mark);
            lemma_all_writing(scanned(noted, *left, mark, true), *right, mark);
        },
        Tree::Update { arg, .. } => {
            lemma_all_writing(noted, *arg, mark);
        },
        Tree::Unary { arg, .. } => {
            lemma_all_writing(noted, *arg, mark);
        },
        _ => {
            lemma_parts_all_writing(noted, t, children_of(t).len(), mark);
        },
    }
}

proof fn lemma_parts_all_writing(found: Found, t: Tree, n: nat, mark: Mark)
    ensures
        forall|i: int|
            0 <= i < part_visits(found, t, n, mark, true).len() ==> (#[trigger] part_visits(
                found,
                t,
                n,
                mark,
                true,
            )[i]).writing,
    decreases t, n,
{
    if 0 < n <= children_of(t).len() {
        lemma_children_smaller(t);
        lemma_parts_all_writing(found, t, (n - 1) as nat, mark);
        lemma_all_writing(
            scanned_parts(found, t, (n - 1) as nat, mark, true),
            children_of(t)[n - 1],
            mark,
        );
    }
}

/// What the walk finds in what `t` writes to is found once `t` is seen.
proof fn lemma_written_stays(found: Found, t: Tree, mark: Mark, writing: bool)
    requires
        written(t) is Some,
    ensures
        kept(
            scanned(found.note(t, mark, writing), written(t)->0, mark, true),
            scanned(found, t, mark, writing),
        ),
{
    let noted = found.note(t, mark, writing);
    match t {
        Tree::Assign { left, right, .. } => {
            law_scan_forgets_nothing(scanned(noted, *left, mark, true), *right, mark, writing);
        },
        _ => {},
    }
}

/// A write through the global `Object` anywhere in a module stops the rule.
pub proof fn law_write_through_object_blocks(m: ModuleView, mark: Mark)
    requires
        some_occurs(m.body, |t: Tree| writes_through_object(t, mark)),
    ensures
        unsafe_write(m, mark),
{
    let what = |t: Tree| writes_through_object(t, mark);
    let trace = preorder_list(m.body);
    let steps = item_visits(m.body, mark);
    lemma_met_list(m.body, what);
    lemma_item_visits(m.body, mark);
    let i = choose|i: int| 0 <= i < trace.len() && what(#[trigger] trace[i]);
    let step = steps[i];
    let target = written(step.t)->0;
    let noted = step.found.note(step.t, mark, step.writing);
    let named = |t: Tree| names_object(t, mark);
    let inner = visits(noted, target, mark, true);
    lemma_met(target, named);
    lemma_visits(noted, target, mark, true);
    lemma_all_writing(noted, target, mark);
    let k = choose|k: int| 0 <= k < preorder(target).len() && named(#[trigger] preorder(target)[k]);
    assert(inner[k].writing);
    lemma_noted_stays(inner[k].found, inner[k].t, mark, true);
    lemma_written_stays(step.found, step.t, mark, step.writing);
}

/// `t` is the property `hasOwnProperty` or `hasOwn` of something.
pub open spec fn has_own_property(t: Tree) -> Option<Tree> {
    match owner(t, "hasOwnProperty"@) {
        Some(object) => Some(object),
        None => owner(t, "hasOwn"@),
    }
}

/// `t` writes to `id.prototype`, or to its property `hasOwnProperty` or `hasOwn`.
pub open spec fn writes_through_object_alias(t: Tree, id: Binding) -> bool {
    written(t) matches Some(target) && {
        ||| owner(target, "prototype"@) matches Some(object) && mentions(object, id)
        ||| has_own_property(target) matches Some(prototype) && owner(
            prototype,
            "prototype"@,
        ) matches Some(object) && mentions(object, id)
    }
}

/// `t` writes to the property `hasOwnProperty` or `hasOwn` of `id`.
pub open spec fn writes_through_prototype_alias(t: Tree, id: Binding) -> bool {
    written(t) matches Some(target) && has_own_property(target) matches Some(prototype)
        && mentions(prototype, id)
}

/// What the walk meets at the index `i` declares the variable `id` as `Object.prototype`,
/// where `Object` is the global, or a variable declared as it before.
pub open spec fn declares_prototype_at(trace: Seq<Tree>, i: int, id: Binding, mark: Mark) -> bool {
    &&& trace[i] matches Tree::Declarator { name, init: Some(init), .. }
    &&& targets(*name, id)
    &&& owner(*init, "prototype"@) matches Some(object)
    &&& free(object, "Object"@, mark) || exists|k: int|
        0 <= k < i && declares_object_read(#[trigger] trace[k], object, mark)
}

/// `t` declares the variable that `object` reads as the global `Object`.
pub open spec fn declares_object_read(t: Tree, object: Tree, mark: Mark) -> bool {
    object matches Tree::Ident { ident } && declares_object(t, (ident.sym, ident.ctxt), mark)
}

/// A write to `Object.prototype`, or to its property `hasOwnProperty` or `hasOwn`, under
/// whatever name that goes by then, stops the rule.
proof fn lemma_target_blocks(found: Found, t: Tree, mark: Mark, writing: bool)
    requires
        written(t) is Some,
        found.target(written(t)->0, mark),
    ensures
        scanned(found, t, mark, writing).blocked,
{
    let noted = found.note(t, mark, writing);
    assert(noted.target(written(t)->0, mark));
    lemma_noted_stays(noted, written(t)->0, mark, true);
    lemma_written_stays(found, t, mark, writing);
}

/// A write through a variable that was declared as `Object` before stops the rule, be it in
/// the same item of the module or in a later one. The indices are those in the order in
/// which a walk through the module meets its syntax.
pub proof fn law_write_through_object_alias_blocks(
    m: ModuleView,
    mark: Mark,
    id: Binding,
    i: int,
    j: int,
)
    requires
        0 <= i < j < preorder_list(m.body).len(),
        declares_object(preorder_list(m.body)[i], id, mark),
        writes_through_object_alias(preorder_list(m.body)[j], id),
    ensures
        unsafe_write(m, mark),
{
    let steps = item_visits(m.body, mark);
    lemma_item_visits(m.body, mark);
    assert(steps[i].t == preorder_list(m.body)[i]);
    assert(steps[j].t == preorder_list(m.body)[j]);
    let found = steps[j].found;
    assert(found.object_aliases.contains(id));
    assert(found.target(written(steps[j].t)->0, mark));
    lemma_target_blocks(found, steps[j].t, mark, steps[j].writing);
}

/// A write through a variable that was declared as `Object.prototype` before stops the
/// rule, where the variable was not declared as `Object` as well by then; be it in the same
/// item of the module or in a later one, and be the prototype that of `Object` itself or of
/// a variable that was declared as it. The indices are those in the order in which a walk
/// through the module meets its syntax.
pub proof fn law_write_through_prototype_alias_blocks(
    m: ModuleView,
    mark: Mark,
    id: Binding,
    i: int,
    j: int,
)
    requires
        0 <= i < j < preorder_list(m.body).len(),
        declares_prototype_at(preorder_list(m.body), i, id, mark),
        writes_through_prototype_alias(preorder_list(m.body)[j], id),
        forall|k: int|
            0 <= k < j ==> !declares_object(#[trigger] preorder_list(m.body)[k], id, mark),
    ensures
        unsafe_write(m, mark),
{
    let trace = preorder_list(m.body);
    let steps = item_visits(m.body, mark);
    lemma_item_visits(m.body, mark);
    assert(steps[i].t == trace[i]);
    assert(steps[j].t == trace[j]);
    let target = written(trace[j])->0;
    if id.0 == "Object"@ && id.1.outer == mark.id {
        let named = |u: Tree| names_object(u, mark);
        let what = |t: Tree| writes_through_object(t, mark);
        let object = has_own_property(target)->0;
        assert(children_of(target)[0] == object);
        lemma_occurs(object, named);
        lemma_occurs(target, named);
        assert(what(trace[j]));
        lemma_met_list(m.body, what);
        law_write_through_object_blocks(m, mark);
    } else {
        let init = *trace[i]->Declarator_init->0;
        let object = owner(init, "prototype"@)->0;
        if !free(object, "Object"@, mark) {
            let k = choose|k: int|
                0 <= k < i && declares_object_read(#[trigger] trace[k], object, mark);
            assert(steps[k].t == trace[k]);
            let ident = object->Ident_ident;
            assert(steps[i].found.object_aliases.contains((ident.sym, ident.ctxt)));
        }
        assert(steps[i].found.prototype(init, mark));
        let found = steps[j].found;
        assert(found.prototype_aliases.contains(id));
        assert(!declared_among(steps, j, id, mark)) by {
            assert forall|k: int| 0 <= k < j implies !declares_object(
                (#[trigger] steps[k]).t,
                id,
                mark,
            ) by {
                assert(steps[k].t == trace[k]);
            }
        }
        assert(!found.object_aliases.contains(id));
        assert(found.target(target, mark));
        lemma_target_blocks(found, trace[j], mark, steps[j].writing);
    }
}

/// The object of `t`, if `t` is `object.name`, in parentheses or not.
pub open spec fn bare_owner(t: Tree, name: Seq<char>) -> Option<Tree> {
    owner(bare(t), name)
}

/// The identifier that `t` is, in parentheses or not, if it is the global `Object`.
pub open spec fn bare_object(t: Tree, mark: Mark) -> Option<IdentView> {
    match bare(t) {
        Tree::Ident { ident } => if object_ident(ident, mark) {
            Some(ident)
        } else {
            None
        },
        _ => None,
    }
}

/// `callee` is `Object.prototype.hasOwnProperty.call`, where `object` is the global
/// `Object`.
pub open spec fn has_own_path(callee: Tree, object: IdentView, mark: Mark) -> bool {
    &&& bare_owner(callee, "call"@) matches Some(method)
    &&& bare_owner(method, "hasOwnProperty"@) matches Some(prototype)
    &&& bare_owner(prototype, "prototype"@) matches Some(root)
    &&& bare_object(root, mark) == Some(object)
}

/// `t` is a call of `Object.prototype.hasOwnProperty.call` with two arguments, neither of
/// which is spread, where `object` is the global `Object`.
pub open spec fn canonical_call(t: Tree, object: IdentView, mark: Mark) -> bool {
    &&& t matches Tree::Call { callee, args, .. }
    &&& args.len() == 2 && unspread(args[0]) && unspread(args[1])
    &&& has_own_path(*callee, object, mark)
}

/// `t` is a call `Object.prototype.hasOwnProperty.call(object, key)` with the global
/// `Object`.
pub open spec fn canonical(t: Tree, mark: Mark) -> bool {
    exists|object: IdentView| canonical_call(t, object, mark)
}

/// The calls that are recognised are those of that form.
proof fn lemma_canonical(t: Tree, mark: Mark)
    ensures
        match has_own_call(t, mark) {
            Some(object) => canonical_call(t, object, mark),
            None => true,
        },
        forall|object: IdentView| #[trigger]
            canonical_call(t, object, mark) ==> has_own_call(t, mark) == Some(object),
        canonical(t, mark) <==> has_own_call(t, mark) is Some,
{
    match t {
        Tree::Call { callee, .. } => {
            law_parentheses_come_off(*callee);
            if let Some(method) = bare_owner(*callee, "call"@) {
                law_parentheses_come_off(method);
                if let Some(prototype) = bare_owner(method, "hasOwnProperty"@) {
                    law_parentheses_come_off(prototype);
                    if let Some(root) = bare_owner(prototype, "prototype"@) {
                        law_parentheses_come_off(root);
                    }
                }
            }
        },
        _ => {},
    }
    if let Some(object) = has_own_call(t, mark) {
        assert(canonical_call(t, object, mark));
    }
}

/// The rule changes nothing but calls of `Object.prototype.hasOwnProperty.call` with two
/// arguments that are not spread, where `Object` is the global; and it changes those at the
/// aggressive level alone, and only where nothing stops it.
pub proof fn law_only_has_own_calls_change(rule: UnHasOwnCall, state: bool, t: Tree)
    requires
        rule.left(state, t) != t,
    ensures
        rule.level == RewriteLevel::Aggressive,
        !rule.blocked,
        canonical(t, rule.unresolved_mark),
{
    lemma_canonical(t, rule.unresolved_mark);
}

/// A recovered call has the arguments of the call that it stands for, in their order, and
/// its position, its context and its types; its callee is the property `hasOwn` of the
/// identifier `Object` of the callee that it stands for.
pub proof fn law_recovered_call(
    rule: UnHasOwnCall,
    state: bool,
    span: Span,
    ctxt: SyntaxContext,
    callee: Tree,
    args: Seq<Tree>,
    types: Seq<Tree>,
    object: IdentView,
)
    requires
        rule.level == RewriteLevel::Aggressive,
        !rule.blocked,
        has_own_path(callee, object, rule.unresolved_mark),
        args.len() == 2,
        unspread(args[0]),
        unspread(args[1]),
    ensures
        rule.left(state, Tree::Call { span, ctxt, callee: Box::new(callee), args, types })
            matches Tree::Call {
            span: new_span,
            ctxt: new_ctxt,
            callee: new_callee,
            args: new_args,
            types: new_types,
        } && {
            &&& new_span == span
            &&& new_ctxt == ctxt
            &&& new_args == args
            &&& new_types == types
            &&& *new_callee matches Tree::Member { span: member_span, obj, prop }
            &&& member_span == Span { lo: 0, hi: 0 }
            &&& *obj == Tree::Ident { ident: object }
            &&& *prop == Tree::PropIdent { span: Span { lo: 0, hi: 0 }, sym: "hasOwn"@ }
        },
{
    let t = Tree::Call { span, ctxt, callee: Box::new(callee), args, types };
    lemma_canonical(t, rule.unresolved_mark);
    assert(canonical_call(t, object, rule.unresolved_mark));
}

/// A recovered call is not one that is recovered again, and holds no other such call than
/// those in its arguments.
proof fn lemma_recovered_call(t: Tree, object: IdentView, mark: Mark)
    requires
        has_own_call(t, mark) == Some(object),
        !some_occurs(children_of(t), |u: Tree| canonical(u, mark)),
    ensures
        !occurs(recovered(t, object), |u: Tree| canonical(u, mark)),
{
    let what = |u: Tree| canonical(u, mark);
    let out = recovered(t, object);
    let member = has_own_member(object);
    reveal_strlit("hasOwn");
    reveal_strlit("call");
    assert("hasOwn"@.len() != "call"@.len());
    assert(inner_object(member, "call"@) is None);
    lemma_canonical(out, mark);
    assert(!what(out));
    lemma_canonical(member, mark);
    lemma_canonical(*member->Member_obj, mark);
    lemma_canonical(*member->Member_prop, mark);
    lemma_occurs(out, what);
    lemma_occurs(member, what);
    lemma_occurs(*member->Member_obj, what);
    lemma_occurs(*member->Member_prop, what);
    assert forall|i: int| 0 <= i < children_of(member).len() implies !occurs(
        #[trigger] children_of(member)[i],
        what,
    ) by {
        assert(i == 0 ==> children_of(member)[i] == *member->Member_obj);
        assert(i == 1 ==> children_of(member)[i] == *member->Member_prop);
    }
    assert forall|i: int| 0 <= i < children_of(out).len() implies !occurs(
        #[trigger] children_of(out)[i],
        what,
    ) by {
        if i == 0 {
            assert(children_of(out)[0] == member);
        } else {
            assert(children_of(out)[i] == children_of(t)[i]);
        }
    }
}

proof fn lemma_none_left(rule: UnHasOwnCall, state: bool, t: Tree)
    requires
        rule.level == RewriteLevel::Aggressive,
        !rule.blocked,
    ensures
        !occurs(rewritten(rule, state, t), |u: Tree| canonical(u, rule.unresolved_mark)),
    decreases t,
{
    let mark = rule.unresolved_mark;
    let what = |u: Tree| canonical(u, mark);
    let parts = rewritten_parts(rule, state, t);
    lemma_children_smaller(t);
    assert forall|i: int| 0 <= i < children_of(parts).len() implies !occurs(
        #[trigger] children_of(parts)[i],
        what,
    ) by {
        if t is With {
            assert(children_of(t)[0] == *t->With_obj);
            assert(children_of(t)[1] == *t->With_body);
        } else {
            law_parts_rewritten(rule, state, t);
        }
        assert(children_of(parts)[i] == rewritten(rule, state, children_of(t)[i]));
        lemma_none_left(rule, state, children_of(t)[i]);
    }
    lemma_canonical(parts, mark);
    match has_own_call(parts, mark) {
        Some(object) => {
            lemma_recovered_call(parts, object, mark);
        },
        None => {
            lemma_occurs(parts, what);
        },
    }
}

/// In a module without an unsafe write, every call
/// `Object.prototype.hasOwnProperty.call(object, key)` with the global `Object` is recovered,
/// wherever it stands.
pub proof fn law_all_recovered(m: ModuleView, mark: Mark)
    requires
        !unsafe_write(m, mark),
    ensures
        !some_occurs(
            recovered_module(m, RewriteLevel::Aggressive, mark).body,
            |t: Tree| canonical(t, mark),
        ),
{
    let rule = UnHasOwnCall {
        level: RewriteLevel::Aggressive,
        unresolved_mark: mark,
        blocked: false,
    };
    let out = rewritten_list(rule, false, m.body);
    assert forall|i: int| 0 <= i < out.len() implies !occurs(
        #[trigger] out[i],
        |t: Tree| canonical(t, mark),
    ) by {
        lemma_none_left(rule, false, m.body[i]);
    }
}

/// The rule leaves syntax as it is in which no call is to be recovered.
proof fn lemma_nothing_to_recover(rule: UnHasOwnCall, state: bool, t: Tree)
    requires
        !occurs(t, |u: Tree| canonical(u, rule.unresolved_mark)),
    ensures
        rewritten(rule, state, t) == t,
    decreases t,
{
    let what = |u: Tree| canonical(u, rule.unresolved_mark);
    lemma_canonical(t, rule.unresolved_mark);
    lemma_occurs(t, what);
    lemma_children_smaller(t);
    assert forall|i: int| 0 <= i < children_of(t).len() implies rewritten(
        rule,
        state,
        #[trigger] children_of(t)[i],
    ) == children_of(t)[i] by {
        lemma_nothing_to_recover(rule, state, children_of(t)[i]);
    }
    if t is With {
        assert(children_of(t)[0] == *t->With_obj);
        assert(children_of(t)[1] == *t->With_body);
    } else {
        lemma_parts_settled(rule, state, t);
    }
}

/// The rule has nothing left to do on what it made.
pub proof fn law_recovery_settles(m: ModuleView, level: RewriteLevel, mark: Mark)
    ensures
        recovered_module(recovered_module(m, level, mark), level, mark) == recovered_module(
            m,
            level,
            mark,
        ),
{
    let once = recovered_module(m, level, mark);
    if level != RewriteLevel::Aggressive {
        law_recovery_is_aggressive_only(once, level, mark);
    } else if unsafe_write(m, mark) {
        law_unsafe_write_blocks_all(m, level, mark);
    } else {
        law_all_recovered(m, mark);
        let rule = UnHasOwnCall {
            level,
            unresolved_mark: mark,
            blocked: unsafe_write(once, mark),
        };
        let twice = rewritten_list(rule, false, once.body);
        assert forall|i: int| 0 <= i < twice.len() implies #[trigger] twice[i] == once.body[i] by {
            lemma_nothing_to_recover(rule, false, once.body[i]);
        }
        assert(twice =~= once.body);
    }
}

/// To be `part`.
pub open spec fn to_be(part: Tree) -> spec_fn(Tree) -> bool {
    |u: Tree| u == part
}

/// `part` stands in `t`.
pub open spec fn holds(t: Tree, part: Tree) -> bool {
    occurs(t, to_be(part))
}

/// What the walk meets at some index writes to something in which `part` stands.
pub open spec fn written_to(trace: Seq<Tree>, part: Tree) -> bool {
    exists|j: int|
        0 <= j < trace.len() && written(#[trigger] trace[j]) is Some && holds(
            written(trace[j])->0,
            part,
        )
}

/// `t` is the global `Object`, or a variable whose declaration as it the walk meets before
/// the index `i`.
pub open spec fn stands_for_object(trace: Seq<Tree>, i: int, t: Tree, mark: Mark) -> bool {
    free(t, "Object"@, mark) || exists|k: int|
        0 <= k < i && declares_object_read(#[trigger] trace[k], t, mark)
}

/// `t` is the property `prototype` of what stands for `Object` at the index `i`.
pub open spec fn prototype_of_object(trace: Seq<Tree>, i: int, t: Tree, mark: Mark) -> bool {
    owner(t, "prototype"@) matches Some(object) && stands_for_object(trace, i, object, mark)
}

/// `t` is `Object.prototype`, or a variable whose declaration as it the walk meets before the
/// index `i`.
pub open spec fn stands_for_prototype(trace: Seq<Tree>, i: int, t: Tree, mark: Mark) -> bool {
    ||| prototype_of_object(trace, i, t, mark)
    ||| t matches Tree::Ident { ident } && exists|k: int|
        0 <= k < i && #[trigger] declares_prototype_at(trace, k, (ident.sym, ident.ctxt), mark)
}

/// What the walk meets at the index `i` is a reason to keep away from a module: it is code
/// whose names may mean anything, or it stands in something that is written to and is the
/// global `Object`, `Object.prototype`, or the property `hasOwnProperty` or `hasOwn` of that.
pub open spec fn reason(trace: Seq<Tree>, i: int, mark: Mark) -> bool {
    ||| dynamic_code(trace[i], mark)
    ||| written_to(trace, trace[i]) && {
        ||| names_object(trace[i], mark)
        ||| prototype_of_object(trace, i, trace[i], mark)
        ||| has_own_property(trace[i]) matches Some(prototype) && stands_for_prototype(
            trace,
            i,
            prototype,
            mark,
        )
    }
}

/// One of the first `n` steps meets a declaration of `id` as what was the prototype then.
spec fn prototype_noted(steps: Seq<Visit>, n: int, id: Binding, mark: Mark) -> bool {
    exists|k: int| 0 <= k < n && notes_prototype(#[trigger] steps[k], id, mark)
}

spec fn notes_prototype(step: Visit, id: Binding, mark: Mark) -> bool {
    step.t matches Tree::Declarator { name, init: Some(init), .. } && targets(*name, id) && !(
    *init is Ident) && step.found.prototype(*init, mark)
}

/// The step meets a reason by itself.
spec fn unsafe_step(step: Visit, mark: Mark) -> bool {
    step.found.unsafe_here(step.t, mark, step.writing)
}

/// One of the steps meets a reason by itself.
spec fn one_unsafe(steps: Seq<Visit>, mark: Mark) -> bool {
    exists|k: int| 0 <= k < steps.len() && unsafe_step(#[trigger] steps[k], mark)
}

/// One of the steps writes to something in which `part` stands.
spec fn step_writes(steps: Seq<Visit>, part: Tree) -> bool {
    exists|j: int|
        0 <= j < steps.len() && written((#[trigger] steps[j]).t) is Some && holds(
            written(steps[j].t)->0,
            part,
        )
}

/// What is found after the steps and not before them is found at one of them, and what is
/// met as written to is written to by one of them, unless all that is met is written to.
spec fn explained(
    steps: Seq<Visit>,
    before: Found,
    after: Found,
    mark: Mark,
    writing: bool,
) -> bool {
    &&& after.blocked ==> before.blocked || one_unsafe(steps, mark)
    &&& forall|id: Binding| #[trigger]
        after.prototype_aliases.contains(id) ==> before.prototype_aliases.contains(id)
            || prototype_noted(steps, steps.len() as int, id, mark)
    &&& forall|i: int, id: Binding|
        0 <= i < steps.len() && #[trigger] steps[i].found.prototype_aliases.contains(id)
            ==> before.prototype_aliases.contains(id) || prototype_noted(steps, i, id, mark)
    &&& forall|i: int|
        0 <= i < steps.len() && (#[trigger] steps[i]).writing ==> writing || step_writes(
            steps,
            steps[i].t,
        )
}

proof fn lemma_noted_concat(a: Seq<Visit>, b: Seq<Visit>, id: Binding, mark: Mark)
    ensures
        forall|n: int|
            0 <= n <= a.len() && #[trigger] prototype_noted(a, n, id, mark) ==> prototype_noted(
                a + b,
                n,
                id,
                mark,
            ),
        prototype_noted(a, a.len() as int, id, mark) ==> forall|n: int|
            a.len() <= n ==> #[trigger] prototype_noted(a + b, n, id, mark),
        forall|n: int|
            0 <= n <= b.len() && #[trigger] prototype_noted(b, n, id, mark) ==> prototype_noted(
                a + b,
                a.len() + n,
                id,
                mark,
            ),
{
    let all = a + b;
    assert forall|n: int| 0 <= n <= a.len() && #[trigger] prototype_noted(a, n, id, mark) implies
        prototype_noted(all, n, id, mark) by {
        let k = choose|k: int| 0 <= k < n && notes_prototype(#[trigger] a[k], id, mark);
        assert(all[k] == a[k]);
    }
    if prototype_noted(a, a.len() as int, id, mark) {
        let k = choose|k: int| 0 <= k < a.len() && notes_prototype(#[trigger] a[k], id, mark);
        assert(all[k] == a[k]);
    }
    assert forall|n: int| 0 <= n <= b.len() && #[trigger] prototype_noted(b, n, id, mark) implies
        prototype_noted(all, a.len() + n, id, mark) by {
        let k = choose|k: int| 0 <= k < n && notes_prototype(#[trigger] b[k], id, mark);
        assert(all[a.len() + k] == b[k]);
    }
}

proof fn lemma_unsafe_concat(a: Seq<Visit>, b: Seq<Visit>, mark: Mark)
    ensures
        one_unsafe(a, mark) || one_unsafe(b, mark) ==> one_unsafe(a + b, mark),
{
    if one_unsafe(a, mark) {
        let k = choose|k: int| 0 <= k < a.len() && unsafe_step(#[trigger] a[k], mark);
        assert((a + b)[k] == a[k]);
    }
    if one_unsafe(b, mark) {
        let k = choose|k: int| 0 <= k < b.len() && unsafe_step(#[trigger] b[k], mark);
        assert((a + b)[a.len() + k] == b[k]);
    }
}

proof fn lemma_writes_concat(a: Seq<Visit>, b: Seq<Visit>, part: Tree)
    ensures
        step_writes(a, part) || step_writes(b, part) ==> step_writes(a + b, part),
{
    if step_writes(a, part) {
        let j = choose|j: int|
            0 <= j < a.len() && written((#[trigger] a[j]).t) is Some && holds(
                written(a[j].t)->0,
                part,
            );
        assert((a + b)[j] == a[j]);
    }
    if step_writes(b, part) {
        let j = choose|j: int|
            0 <= j < b.len() && written((#[trigger] b[j]).t) is Some && holds(
                written(b[j].t)->0,
                part,
            );
        assert((a + b)[a.len() + j] == b[j]);
    }
}

proof fn lemma_explained_concat(
    a: Seq<Visit>,
    b: Seq<Visit>,
    before: Found,
    between: Found,
    after: Found,
    mark: Mark,
    writing: bool,
)
    requires
        explained(a, before, between, mark, writing),
        explained(b, between, after, mark, writing),
    ensures
        explained(a + b, before, after, mark, writing),
{
    let steps = a + b;
    lemma_unsafe_concat(a, b, mark);
    assert forall|id: Binding| #[trigger] after.prototype_aliases.contains(id) implies
        before.prototype_aliases.contains(id) || prototype_noted(
        steps,
        steps.len() as int,
        id,
        mark,
    ) by {
        lemma_noted_concat(a, b, id, mark);
        if between.prototype_aliases.contains(id) && !before.prototype_aliases.contains(id) {
            assert(prototype_noted(a, a.len() as int, id, mark));
        }
    }
    assert forall|i: int, id: Binding|
        0 <= i < steps.len() && #[trigger] steps[i].found.prototype_aliases.contains(id) implies
        before.prototype_aliases.contains(id) || prototype_noted(steps, i, id, mark) by {
        lemma_noted_concat(a, b, id, mark);
        if i < a.len() {
            assert(a[i].found.prototype_aliases.contains(id));
        } else {
            assert(b[i - a.len()].found.prototype_aliases.contains(id));
            if between.prototype_aliases.contains(id) && !before.prototype_aliases.contains(id) {
                assert(prototype_noted(a, a.len() as int, id, mark));
            }
        }
    }
    assert forall|i: int| 0 <= i < steps.len() && (#[trigger] steps[i]).writing implies writing
        || step_writes(steps, steps[i].t) by {
        lemma_writes_concat(a, b, steps[i].t);
        if i < a.len() {
            assert(a[i].writing);
        } else {
            assert(b[i - a.len()].writing);
        }
    }
}

/// A step and the steps through the parts of what it meets, where those that are met as
/// written to stand in what the step writes to.
proof fn lemma_explained_inside(
    rest: Seq<Visit>,
    found: Found,
    t: Tree,
    mark: Mark,
    writing: bool,
    inner: bool,
)
    requires
        explained(
            rest,
            found.note(t, mark, writing),
            scanned(found, t, mark, writing),
            mark,
            inner,
        ),
        forall|i: int|
            0 <= i < rest.len() && (#[trigger] rest[i]).writing && inner && !writing ==> written(
                t,
            ) is Some && holds(written(t)->0, rest[i].t) || step_writes(rest, rest[i].t),
    ensures
        explained(
            seq![Visit { found, t, writing }] + rest,
            found,
            scanned(found, t, mark, writing),
            mark,
            writing,
        ),
{
    let head = Visit { found, t, writing };
    let steps = seq![head] + rest;
    let noted = found.note(t, mark, writing);
    assert(steps[0] == head);
    lemma_unsafe_concat(seq![head], rest, mark);
    if found.unsafe_here(t, mark, writing) {
        assert(unsafe_step(steps[0], mark));
    }
    assert forall|id: Binding| #[trigger] noted.prototype_aliases.contains(id) implies
        found.prototype_aliases.contains(id) || notes_prototype(steps[0], id, mark) by {}
    assert forall|id: Binding| #[trigger]
        scanned(found, t, mark, writing).prototype_aliases.contains(id) implies
        found.prototype_aliases.contains(id) || prototype_noted(
        steps,
        steps.len() as int,
        id,
        mark,
    ) by {
        lemma_noted_concat(seq![head], rest, id, mark);
        if noted.prototype_aliases.contains(id) && !found.prototype_aliases.contains(id) {
            assert(notes_prototype(steps[0], id, mark));
        }
    }
    assert forall|i: int, id: Binding|
        0 <= i < steps.len() && #[trigger] steps[i].found.prototype_aliases.contains(id) implies
        found.prototype_aliases.contains(id) || prototype_noted(steps, i, id, mark) by {
        lemma_noted_concat(seq![head], rest, id, mark);
        if i > 0 {
            assert(rest[i - 1].found.prototype_aliases.contains(id));
            if noted.prototype_aliases.contains(id) && !found.prototype_aliases.contains(id) {
                assert(notes_prototype(steps[0], id, mark));
            }
        }
    }
    assert forall|i: int| 0 <= i < steps.len() && (#[trigger] steps[i]).writing implies writing
        || step_writes(steps, steps[i].t) by {
        lemma_writes_concat(seq![head], rest, steps[i].t);
        if i > 0 && !writing {
            assert(rest[i - 1].writing);
            if !step_writes(rest, rest[i - 1].t) {
                assert(written(steps[0].t) is Some && holds(written(steps[0].t)->0, steps[i].t));
            }
        }
    }
}

/// All that the walk through `t` meets stands in `t`.
proof fn lemma_visits_inside(found: Found, t: Tree, mark: Mark, writing: bool)
    ensures
        forall|i: int|
            0 <= i < visits(found, t, mark, writing).len() ==> holds(
                t,
                (#[trigger] visits(found, t, mark, writing)[i]).t,
            ),
{
    let steps = visits(found, t, mark, writing);
    lemma_visits(found, t, mark, writing);
    assert forall|i: int| 0 <= i < steps.len() implies holds(t, (#[trigger] steps[i]).t) by {
        let part = steps[i].t;
        let what = to_be(part);
        lemma_met(t, what);
        assert(preorder(t)[i] == part);
        assert(what(preorder(t)[i]));
    }
}

proof fn lemma_explained(found: Found, t: Tree, mark: Mark, writing: bool)
    ensures
        explained(
            visits(found, t, mark, writing),
            found,
            scanned(found, t, mark, writing),
            mark,
            writing,
        ),
    decreases t, children_of(t).len() + 1,
{
    let noted = found.note(t, mark, writing);
    match t {
        Tree::Assign { left, right, .. } => {
            let half = scanned(noted, *left, mark, true);
            let a = visits(noted, *left, mark, true);
            let b = visits(half, *right, mark, writing);
            lemma_explained(noted, *left, mark, true);
            lemma_explained(half, *right, mark, writing);
            assert(explained(b, half, scanned(found, t, mark, writing), mark, true));
            lemma_explained_concat(
                a,
                b,
                noted,
                half,
                scanned(found, t, mark, writing),
                mark,
                true,
            );
            lemma_visits_inside(noted, *left, mark, true);
            assert forall|i: int| 0 <= i < (a + b).len() && (#[trigger] (a + b)[i]).writing
                && !writing implies written(t) is Some && holds(written(t)->0, (a + b)[i].t)
                || step_writes(a + b, (a + b)[i].t) by {
                if i < a.len() {
                    assert((a + b)[i] == a[i]);
                } else {
                    assert((a + b)[i] == b[i - a.len()]);
                    assert(b[i - a.len()].writing);
                    lemma_writes_concat(a, b, (a + b)[i].t);
                }
            }
            lemma_explained_inside(a + b, found, t, mark, writing, true);
        },
        Tree::Update { arg, .. } => {
            lemma_explained(noted, *arg, mark, true);
            lemma_visits_inside(noted, *arg, mark, true);
            lemma_explained_inside(
                visits(noted, *arg, mark, true),
                found,
                t,
                mark,
                writing,
                true,
            );
        },
        Tree::Unary { op, arg, .. } => {
            let inner = writing || op == UnaryOp::Delete;
            lemma_explained(noted, *arg, mark, inner);
            lemma_visits_inside(noted, *arg, mark, inner);
            lemma_explained_inside(
                visits(noted, *arg, mark, inner),
                found,
                t,
                mark,
                writing,
                inner,
            );
        },
        _ => {
            lemma_parts_explained(noted, t, children_of(t).len(), mark, writing);
            lemma_explained_inside(
                part_visits(noted, t, children_of(t).len(), mark, writing),
                found,
                t,
                mark,
                writing,
                writing,
            );
        },
    }
}

proof fn lemma_parts_explained(found: Found, t: Tree, n: nat, mark: Mark, writing: bool)
    ensures
        explained(
            part_visits(found, t, n, mark, writing),
            found,
            scanned_parts(found, t, n, mark, writing),
            mark,
            writing,
        ),
    decreases t, n,
{
    if 0 < n <= children_of(t).len() {
        lemma_children_smaller(t);
        let ahead = scanned_parts(found, t, (n - 1) as nat, mark, writing);
        lemma_parts_explained(found, t, (n - 1) as nat, mark, writing);
        lemma_explained(ahead, children_of(t)[n - 1], mark, writing);
        lemma_explained_concat(
            part_visits(found, t, (n - 1) as nat, mark, writing),
            visits(ahead, children_of(t)[n - 1], mark, writing),
            found,
            ahead,
            scanned_parts(found, t, n, mark, writing),
            mark,
            writing,
        );
    }
}

proof fn lemma_items_explained(items: Seq<Tree>, mark: Mark)
    ensures
        explained(
            item_visits(items, mark),
            nothing_found(),
            scanned_items(items, mark),
            mark,
            false,
        ),
    decreases items.len(),
{
    if items.len() > 0 {
        let ahead = scanned_items(items.drop_last(), mark);
        lemma_items_explained(items.drop_last(), mark);
        lemma_explained(ahead, items.last(), mark, false);
        lemma_explained_concat(
            item_visits(items.drop_last(), mark),
            visits(ahead, items.last(), mark, false),
            nothing_found(),
            ahead,
            scanned_items(items, mark),
            mark,
            false,
        );
    }
}

/// What counts as `Object` at a step of the walk through a module stands for it.
proof fn lemma_object_found(items: Seq<Tree>, mark: Mark, i: int, t: Tree)
    requires
        0 <= i < item_visits(items, mark).len(),
        item_visits(items, mark)[i].found.object(t, mark),
    ensures
        stands_for_object(preorder_list(items), i, t, mark),
{
    let steps = item_visits(items, mark);
    let trace = preorder_list(items);
    lemma_item_visits(items, mark);
    if !free(t, "Object"@, mark) {
        let ident = t->Ident_ident;
        let id = (ident.sym, ident.ctxt);
        assert(steps[i].found.object_aliases.contains(id));
        assert(declared_among(steps, i, id, mark));
        let k = choose|k: int| 0 <= k < i && declares_object((#[trigger] steps[k]).t, id, mark);
        assert(steps[k].t == trace[k]);
        assert(declares_object_read(trace[k], t, mark));
    }
}

/// What counts as `Object.prototype` at a step of the walk through a module stands for it.
proof fn lemma_prototype_found(items: Seq<Tree>, mark: Mark, i: int, t: Tree)
    requires
        0 <= i < item_visits(items, mark).len(),
        item_visits(items, mark)[i].found.prototype(t, mark),
    ensures
        stands_for_prototype(preorder_list(items), i, t, mark),
{
    let steps = item_visits(items, mark);
    let trace = preorder_list(items);
    lemma_item_visits(items, mark);
    lemma_items_explained(items, mark);
    if t is Ident {
        let ident = t->Ident_ident;
        let id = (ident.sym, ident.ctxt);
        assert(steps[i].found.prototype_aliases.contains(id));
        assert(prototype_noted(steps, i, id, mark));
        let k = choose|k: int| 0 <= k < i && notes_prototype(#[trigger] steps[k], id, mark);
        assert(steps[k].t == trace[k]);
        let init = *steps[k].t->Declarator_init->0;
        lemma_object_found(items, mark, k, owner(init, "prototype"@)->0);
        assert(declares_prototype_at(trace, k, id, mark));
    } else {
        lemma_object_found(items, mark, i, owner(t, "prototype"@)->0);
    }
}

/// The rule keeps away from a module only where there is a reason in it.
pub proof fn law_no_module_is_unsafe_without_reason(m: ModuleView, mark: Mark)
    requires
        unsafe_write(m, mark),
    ensures
        exists|i: int|
            0 <= i < preorder_list(m.body).len() && #[trigger] reason(
                preorder_list(m.body),
                i,
                mark,
            ),
{
    let trace = preorder_list(m.body);
    let steps = item_visits(m.body, mark);
    lemma_item_visits(m.body, mark);
    lemma_items_explained(m.body, mark);
    let i = choose|i: int| 0 <= i < steps.len() && unsafe_step(#[trigger] steps[i], mark);
    let t = steps[i].t;
    assert(t == trace[i]);
    if !dynamic_code(t, mark) {
        assert(steps[i].writing);
        assert(step_writes(steps, t));
        let j = choose|j: int|
            0 <= j < steps.len() && written((#[trigger] steps[j]).t) is Some && holds(
                written(steps[j].t)->0,
                t,
            );
        assert(steps[j].t == trace[j]);
        assert(written_to(trace, t));
        if !names_object(t, mark) {
            let obj = *t->Member_obj;
            if steps[i].found.object(obj, mark) {
                lemma_object_found(m.body, mark, i, obj);
            } else {
                lemma_prototype_found(m.body, mark, i, obj);
                assert(has_own_property(t) == Some(obj));
            }
        }
    }
    assert(reason(trace, i, mark));
}

/// `t` is `id.prototype`, or its property `hasOwnProperty` or `hasOwn`.
pub open spec fn object_alias_target(t: Tree, id: Binding) -> bool {
    ||| owner(t, "prototype"@) matches Some(object) && mentions(object, id)
    ||| has_own_property(t) matches Some(prototype) && owner(
        prototype,
        "prototype"@,
    ) matches Some(object) && mentions(object, id)
}

/// To be `id.prototype`, or its property `hasOwnProperty` or `hasOwn`.
pub open spec fn to_be_object_alias_target(id: Binding) -> spec_fn(Tree) -> bool {
    |u: Tree| object_alias_target(u, id)
}

/// A write to something in which `id.prototype`, or its property `hasOwnProperty` or `hasOwn`
/// stands, where the variable `id` was declared as `Object` before, stops the rule. The
/// indices are those in the order in which a walk through the module meets its syntax.
pub proof fn law_nested_write_through_object_alias_blocks(
    m: ModuleView,
    mark: Mark,
    id: Binding,
    i: int,
    j: int,
)
    requires
        0 <= i < j < preorder_list(m.body).len(),
        declares_object(preorder_list(m.body)[i], id, mark),
        written(preorder_list(m.body)[j]) matches Some(target) && occurs(
            target,
            to_be_object_alias_target(id),
        ),
    ensures
        unsafe_write(m, mark),
{
    let trace = preorder_list(m.body);
    let steps = item_visits(m.body, mark);
    lemma_item_visits(m.body, mark);
    assert(steps[i].t == trace[i]);
    assert(steps[j].t == trace[j]);
    let step = steps[j];
    let target = written(step.t)->0;
    let noted = step.found.note(step.t, mark, step.writing);
    let what = to_be_object_alias_target(id);
    let inner = visits(noted, target, mark, true);
    assert(noted.object_aliases.contains(id));
    lemma_met(target, what);
    lemma_visits(noted, target, mark, true);
    lemma_all_writing(noted, target, mark);
    let k = choose|k: int| 0 <= k < preorder(target).len() && what(#[trigger] preorder(target)[k]);
    assert(inner[k].writing);
    assert(inner[k].found.object_aliases.contains(id));
    assert(inner[k].found.target(inner[k].t, mark));
    lemma_noted_stays(inner[k].found, inner[k].t, mark, true);
    lemma_written_stays(step.found, step.t, mark, step.writing);
}

/// A variable that nothing in the module declares as `Object` never counts as it.
proof fn lemma_declared_later(items: Seq<Tree>, mark: Mark, id: Binding)
    requires
        forall|k: int|
            0 <= k < preorder_list(items).len() ==> !declares_object(
                #[trigger] preorder_list(items)[k],
                id,
                mark,
            ),
    ensures
        !scanned_items(items, mark).object_aliases.contains(id),
{
    let steps = item_visits(items, mark);
    lemma_item_visits(items, mark);
    assert forall|k: int| 0 <= k < steps.len() implies !declares_object(
        (#[trigger] steps[k]).t,
        id,
        mark,
    ) by {
        assert(steps[k].t == preorder_list(items)[k]);
    }
}

/// The object of a member expression that is met in `t` stands in `t`.
proof fn lemma_named_inside(t: Tree, part: Tree, obj: Tree, mark: Mark)
    requires
        holds(t, part),
        has_own_property(part) == Some(obj),
        names_object(obj, mark),
    ensures
        occurs(t, |u: Tree| names_object(u, mark)),
    decreases t,
{
    let named = |u: Tree| names_object(u, mark);
    lemma_occurs(t, to_be(part));
    lemma_occurs(t, named);
    if t == part {
        assert(children_of(t)[0] == obj);
        lemma_occurs(obj, named);
    } else {
        lemma_children_smaller(t);
        let i = choose|i: int|
            0 <= i < children_of(t).len() && occurs(#[trigger] children_of(t)[i], to_be(part));
        lemma_named_inside(children_of(t)[i], part, obj, mark);
    }
}

/// To be the property `hasOwnProperty` or `hasOwn` of `id`.
pub open spec fn to_be_prototype_alias_target(id: Binding) -> spec_fn(Tree) -> bool {
    |u: Tree| has_own_property(u) matches Some(prototype) && mentions(prototype, id)
}

/// A write to something in which the property `hasOwnProperty` or `hasOwn` of `id` stands,
/// where the variable `id` was declared as `Object.prototype` before, stops the rule, where
/// nothing in the module declares `id` as `Object`. The indices are those in the order in
/// which a walk through the module meets its syntax.
pub proof fn law_nested_write_through_prototype_alias_blocks(
    m: ModuleView,
    mark: Mark,
    id: Binding,
    i: int,
    j: int,
)
    requires
        0 <= i < j < preorder_list(m.body).len(),
        declares_prototype_at(preorder_list(m.body), i, id, mark),
        written(preorder_list(m.body)[j]) matches Some(target) && occurs(
            target,
            to_be_prototype_alias_target(id),
        ),
        forall|k: int|
            0 <= k < preorder_list(m.body).len() ==> !declares_object(
                #[trigger] preorder_list(m.body)[k],
                id,
                mark,
            ),
    ensures
        unsafe_write(m, mark),
{
    let trace = preorder_list(m.body);
    let steps = item_visits(m.body, mark);
    lemma_item_visits(m.body, mark);
    assert(steps[i].t == trace[i]);
    assert(steps[j].t == trace[j]);
    let init = *trace[i]->Declarator_init->0;
    let object = owner(init, "prototype"@)->0;
    if !free(object, "Object"@, mark) {
        let k = choose|k: int|
            0 <= k < i && declares_object_read(#[trigger] trace[k], object, mark);
        assert(steps[k].t == trace[k]);
        let ident = object->Ident_ident;
        assert(steps[i].found.object_aliases.contains((ident.sym, ident.ctxt)));
    }
    assert(steps[i].found.prototype(init, mark));
    let step = steps[j];
    let target = written(step.t)->0;
    let noted = step.found.note(step.t, mark, step.writing);
    let what = to_be_prototype_alias_target(id);
    let inner = visits(noted, target, mark, true);
    assert(noted.prototype_aliases.contains(id));
    lemma_met(target, what);
    lemma_visits(noted, target, mark, true);
    lemma_visits_inside(noted, target, mark, true);
    lemma_all_writing(noted, target, mark);
    let k = choose|k: int| 0 <= k < preorder(target).len() && what(#[trigger] preorder(target)[k]);
    assert(inner[k].writing);
    let found = inner[k].found;
    assert(found.prototype_aliases.contains(id));
    lemma_written_stays(step.found, step.t, mark, step.writing);
    lemma_noted_stays(found, inner[k].t, mark, true);
    assert(!found.object_aliases.contains(id)) by {
        lemma_declared_later(m.body, mark, id);
        law_scan_forgets_nothing(found, inner[k].t, mark, true);
    }
    let obj = has_own_property(inner[k].t)->0;
    if object_ident(obj->Ident_ident, mark) {
        let writes = |t: Tree| writes_through_object(t, mark);
        lemma_named_inside(target, inner[k].t, obj, mark);
        assert(writes(trace[j]));
        lemma_met_list(m.body, writes);
        law_write_through_object_blocks(m, mark);
    } else {
        assert(found.target(inner[k].t, mark));
    }
}

/// The rule does the same wherever syntax stands.
pub proof fn law_recovery_is_the_same_everywhere(rule: UnHasOwnCall, state: bool, t: Tree)
    ensures
        rule.entered(state, t) == state,
        rule.entered_with(state) == state,
        rule.left(true, t) == rule.left(false, t),
{
}

/// The items of a module are recovered one by one, by a rule that is blocked if and only if
/// the module may replace `Object.prototype.hasOwnProperty`.
pub proof fn law_modules_item_by_item(m: ModuleView, rule: UnHasOwnCall)
    requires
        rule.blocked == unsafe_write(m, rule.unresolved_mark),
    ensures
        recovered_module(m, rule.level, rule.unresolved_mark).span == m.span,
        recovered_module(m, rule.level, rule.unresolved_mark).body.len() == m.body.len(),
        forall|i: int|
            0 <= i < m.body.len() ==> #[trigger] recovered_module(
                m,
                rule.level,
                rule.unresolved_mark,
            ).body[i] == rewritten(rule, false, m.body[i]),
{
}

} // verus!
