//! Declarations of temporaries, and whether they are still needed.
use vstd::prelude::*;

use crate::bindings::{binding_of, Binding};
use crate::same::same_ident;
use crate::syntax::{
    lemma_trees, lemma_trees_push, opt_tree, take_out, trees, Ident, IdentView, Node, Tree,
};
use crate::walk::{children_of, lemma_children_smaller, seen};

verus! {

broadcast use {lemma_trees, lemma_trees_push};

/// `id` is used in `t`: read, or written to other than by its declaration. With
/// `declared`, `t` is a pattern of a declaration, whose identifiers are no uses.
pub open spec fn uses(t: Tree, id: Binding, declared: bool) -> bool
    decreases t, children_of(t).len() + 1,
{
    match t {
        Tree::Ident { ident } => binding_of(ident) == id,
        Tree::PatIdent { ident, types } => (!declared && binding_of(ident) == id) || some_uses(
            types,
            id,
            false,
        ),
        Tree::PatShorthand { ident, types, value, .. } => (!declared && binding_of(ident) == id)
            || some_uses(types, id, false) || opt_uses(value, id, false),
        Tree::PatArray { elems, types, .. } => some_uses(elems, id, declared) || some_uses(
            types,
            id,
            false,
        ),
        Tree::PatObject { props, types, .. } => some_uses(props, id, declared) || some_uses(
            types,
            id,
            false,
        ),
        Tree::PatAssign { left, right, .. } => uses(*left, id, declared) || uses(*right, id, false),
        Tree::PatRest { arg, types, .. } => uses(*arg, id, declared) || some_uses(types, id, false),
        Tree::PatProp { key, value } => uses(*key, id, false) || uses(*value, id, declared),
        Tree::Declarator { name, init, .. } => uses(*name, id, true) || opt_uses(init, id, false),
        Tree::Param { decorators, pat, .. } => some_uses(decorators, id, false) || uses(
            *pat,
            id,
            true,
        ),
        Tree::Arrow { params, body, types, .. } => some_uses(params, id, true) || uses(
            *body,
            id,
            false,
        ) || some_uses(types, id, false),
        Tree::Catch { param, body, .. } => opt_uses(param, id, true) || uses(*body, id, false),
        _ => part_uses(t, children_of(t).len(), id),
    }
}

/// `id` is used in one of the first `n` parts of `t`.
pub open spec fn part_uses(t: Tree, n: nat, id: Binding) -> bool
    decreases t, n,
{
    0 < n <= children_of(t).len() && (part_uses(t, (n - 1) as nat, id) || {
        proof {
            lemma_children_smaller(t);
        }
        uses(children_of(t)[n - 1], id, false)
    })
}

/// `id` is used in one piece of the list.
pub open spec fn some_uses(list: Seq<Tree>, id: Binding, declared: bool) -> bool
    decreases list, 0nat,
{
    list.len() > 0 && (some_uses(list.drop_last(), id, declared) || uses(list.last(), id, declared))
}

/// `id` is used in a part that may be missing.
pub open spec fn opt_uses(part: Option<Box<Tree>>, id: Binding, declared: bool) -> bool
    decreases part, 0nat,
{
    match part {
        Some(part) => uses(*part, id, declared),
        None => false,
    }
}

fn is_used(node: &Node, ident: &Ident, declared: bool) -> (yes: bool)
    ensures
        yes <==> uses(node@, binding_of(ident@), declared),
    decreases node@, children_of(node@).len() + 1,
{
    match node {
        Node::Ident { ident: here } => same_ident(here, ident),
        Node::PatIdent { ident: here, types } => {
            (!declared && same_ident(here, ident)) || some_is_used(types, ident, false)
        },
        Node::PatShorthand { ident: here, types, value, .. } => {
            (!declared && same_ident(here, ident)) || some_is_used(types, ident, false)
                || opt_is_used(value, ident, false)
        },
        Node::PatArray { elems, types, .. } => {
            some_is_used(elems, ident, declared) || some_is_used(types, ident, false)
        },
        Node::PatObject { props, types, .. } => {
            some_is_used(props, ident, declared) || some_is_used(types, ident, false)
        },
        Node::PatAssign { left, right, .. } => {
            is_used(left, ident, declared) || is_used(right, ident, false)
        },
        Node::PatRest { arg, types, .. } => {
            is_used(arg, ident, declared) || some_is_used(types, ident, false)
        },
        Node::PatProp { key, value } => {
            is_used(key, ident, false) || is_used(value, ident, declared)
        },
        Node::Declarator { name, init, .. } => {
            is_used(name, ident, true) || opt_is_used(init, ident, false)
        },
        Node::Param { decorators, pat, .. } => {
            some_is_used(decorators, ident, false) || is_used(pat, ident, true)
        },
        Node::Arrow { params, body, types, .. } => {
            some_is_used(params, ident, true) || is_used(body, ident, false) || some_is_used(
                types,
                ident,
                false,
            )
        },
        Node::Catch { param, body, .. } => {
            opt_is_used(param, ident, true) || is_used(body, ident, false)
        },
        _ => part_is_used(node, ident),
    }
}

fn part_is_used(node: &Node, ident: &Ident) -> (yes: bool)
    ensures
        yes <==> part_uses(node@, children_of(node@).len(), binding_of(ident@)),
    decreases node@, children_of(node@).len(),
{
    let ghost t = node@;
    let parts = node.children();
    let mut yes = false;
    let mut i: usize = 0;
    while i < parts.len()
        invariant
            i <= parts.len(),
            t == node@,
            seen(parts@) == children_of(t),
            yes <==> part_uses(t, i as nat, binding_of(ident@)),
        decreases parts.len() - i,
    {
        proof {
            lemma_children_smaller(t);
            assert(seen(parts@)[i as int] == parts@[i as int]@);
        }
        let here = is_used(parts[i], ident, false);
        yes = yes || here;
        i += 1;
    }
    yes
}

fn some_is_used(list: &Vec<Node>, ident: &Ident, declared: bool) -> (yes: bool)
    ensures
        yes <==> some_uses(trees(list@), binding_of(ident@), declared),
    decreases trees(list@), 0nat,
{
    let ghost all = trees(list@);
    let mut yes = false;
    let mut i: usize = 0;
    while i < list.len()
        invariant
            i <= list.len(),
            all == trees(list@),
            yes <==> some_uses(all.take(i as int), binding_of(ident@), declared),
        decreases list.len() - i,
    {
        assert(all[i as int] == list@[i as int]@);
        assert(decreases_to!(all => all[i as int]));
        let here = is_used(&list[i], ident, declared);
        yes = yes || here;
        i += 1;
        assert(all.take(i as int).drop_last() =~= all.take(i - 1));
    }
    assert(all.take(i as int) =~= all);
    yes
}

fn opt_is_used(part: &Option<Box<Node>>, ident: &Ident, declared: bool) -> (yes: bool)
    ensures
        yes <==> opt_uses(opt_tree(*part), binding_of(ident@), declared),
    decreases opt_tree(*part), 0nat,
{
    match part {
        Some(inner) => {
            assert(opt_tree(*part) == Some(Box::new((**inner)@)));
            assert(decreases_to!(opt_tree(*part) => opt_tree(*part)->0));
            is_used(inner, ident, declared)
        },
        None => false,
    }
}

/// Whether one of the statements from the index `from` on uses `ident` other than by
/// declaring it.
pub fn ident_is_used_in_stmts_excluding_bindings(
    ident: &Ident,
    stmts: &Vec<Node>,
    from: usize,
) -> (yes: bool)
    requires
        from <= stmts.len(),
    ensures
        yes <==> some_uses(trees(stmts@).skip(from as int), binding_of(ident@), false),
{
    let ghost all = trees(stmts@).skip(from as int);
    let mut yes = false;
    let mut i: usize = from;
    while i < stmts.len()
        invariant
            from <= i <= stmts.len(),
            all == trees(stmts@).skip(from as int),
            yes <==> some_uses(all.take(i - from), binding_of(ident@), false),
        decreases stmts.len() - i,
    {
        assert(all[i - from] == stmts@[i as int]@);
        let here = is_used(&stmts[i], ident, false);
        yes = yes || here;
        i += 1;
        assert(all.take(i - from).drop_last() =~= all.take(i - from - 1));
    }
    assert(all.take(i - from) =~= all);
    yes
}

/// `t` declares the variable `id` and gives it no value.
pub open spec fn uninitialized(t: Tree, id: Binding) -> bool {
    t matches Tree::Declarator { name, init: None, .. } && *name matches Tree::PatIdent {
        ident,
        ..
    } && binding_of(ident) == id
}

/// One of the declarators declares the variable `id` and gives it no value.
pub open spec fn some_uninitialized(decls: Seq<Tree>, id: Binding) -> bool {
    exists|i: int| 0 <= i < decls.len() && #[trigger] uninitialized(decls[i], id)
}

/// One of the statements is a declaration of `id` that gives it no value.
pub open spec fn declared_uninitialized(stmts: Seq<Tree>, id: Binding) -> bool {
    exists|i: int| 0 <= i < stmts.len() && #[trigger] declares_uninitialized(stmts[i], id)
}

/// `t` is a declaration of `id` that gives it no value.
pub open spec fn declares_uninitialized(t: Tree, id: Binding) -> bool {
    t matches Tree::VarDecl { decls, .. } && some_uninitialized(decls, id)
}

/// The values of a list of identifiers.
pub open spec fn ident_views(idents: Seq<Ident>) -> Seq<IdentView> {
    Seq::new(idents.len(), |i: int| idents[i]@)
}

/// The bindings of a list of identifiers.
pub open spec fn bindings_of(idents: Seq<IdentView>) -> Seq<Binding> {
    Seq::new(idents.len(), |i: int| binding_of(idents[i]))
}

/// The declarations of `ids` can leave `stmts`: each is declared there without a value,
/// and none is used there.
pub open spec fn removable(stmts: Seq<Tree>, ids: Seq<Binding>) -> bool {
    forall|i: int|
        0 <= i < ids.len() ==> declared_uninitialized(stmts, #[trigger] ids[i]) && !some_uses(
            stmts,
            ids[i],
            false,
        )
}

fn names_ident(node: &Node, ident: &Ident) -> (yes: bool)
    ensures
        yes <==> (node@ matches Tree::PatIdent { ident: here, .. } && binding_of(here)
            == binding_of(ident@)),
{
    match node {
        Node::PatIdent { ident: here, .. } => same_ident(here, ident),
        _ => false,
    }
}

fn is_uninitialized(node: &Node, ident: &Ident) -> (yes: bool)
    ensures
        yes <==> uninitialized(node@, binding_of(ident@)),
{
    match node {
        Node::Declarator { name, init, .. } => {
            assert(opt_tree(*init) is None <==> *init is None);
            init.is_none() && names_ident(name, ident)
        },
        _ => false,
    }
}

fn some_is_uninitialized(decls: &Vec<Node>, ident: &Ident) -> (yes: bool)
    ensures
        yes <==> some_uninitialized(trees(decls@), binding_of(ident@)),
{
    let ghost all = trees(decls@);
    let mut i: usize = 0;
    while i < decls.len()
        invariant
            i <= decls.len(),
            all == trees(decls@),
            forall|k: int| 0 <= k < i ==> !#[trigger] uninitialized(all[k], binding_of(ident@)),
        decreases decls.len() - i,
    {
        assert(all[i as int] == decls@[i as int]@);
        if is_uninitialized(&decls[i], ident) {
            return true;
        }
        i += 1;
    }
    false
}

fn is_declared_uninitialized(node: &Node, ident: &Ident) -> (yes: bool)
    ensures
        yes <==> declares_uninitialized(node@, binding_of(ident@)),
{
    match node {
        Node::VarDecl { decls, .. } => some_is_uninitialized(decls, ident),
        _ => false,
    }
}

/// Whether the declarations of `idents` can leave `stmts`: each is declared there without
/// a value, and none is used there.
pub fn can_remove_prior_uninitialized_decls(stmts: &Vec<Node>, idents: &Vec<Ident>) -> (yes: bool)
    ensures
        yes <==> removable(trees(stmts@), bindings_of(ident_views(idents@))),
{
    let ghost all = trees(stmts@);
    let ghost ids = bindings_of(ident_views(idents@));
    let mut i: usize = 0;
    while i < idents.len()
        invariant
            i <= idents.len(),
            all == trees(stmts@),
            ids == bindings_of(ident_views(idents@)),
            forall|k: int|
                0 <= k < i ==> declared_uninitialized(all, #[trigger] ids[k]) && !some_uses(
                    all,
                    ids[k],
                    false,
                ),
        decreases idents.len() - i,
    {
        let ghost id = ids[i as int];
        let mut found = false;
        let mut j: usize = 0;
        while j < stmts.len()
            invariant
                i < idents.len(),
                j <= stmts.len(),
                all == trees(stmts@),
                id == binding_of(idents@[i as int]@),
                found <==> exists|k: int|
                    0 <= k < j && #[trigger] declares_uninitialized(all[k], id),
            decreases stmts.len() - j,
        {
            assert(all[j as int] == stmts@[j as int]@);
            let here = is_declared_uninitialized(&stmts[j], &idents[i]);
            found = found || here;
            j += 1;
        }
        assert(found <==> declared_uninitialized(all, id));
        assert(all.skip(0) =~= all);
        if !found || ident_is_used_in_stmts_excluding_bindings(&idents[i], stmts, 0) {
            assert(!(declared_uninitialized(all, ids[i as int]) && !some_uses(
                all,
                ids[i as int],
                false,
            )));
            return false;
        }
        i += 1;
    }
    true
}

/// `t` declares one of `ids` and gives it no value.
pub open spec fn one_uninitialized(t: Tree, ids: Seq<Binding>) -> bool {
    exists|i: int| 0 <= i < ids.len() && uninitialized(t, #[trigger] ids[i])
}

/// The declarators without those that declare one of `ids` and give it no value.
pub open spec fn kept_decls(decls: Seq<Tree>, ids: Seq<Binding>) -> Seq<Tree>
    decreases decls.len(),
{
    if decls.len() == 0 {
        seq![]
    } else if one_uninitialized(decls.last(), ids) {
        kept_decls(decls.drop_last(), ids)
    } else {
        kept_decls(decls.drop_last(), ids).push(decls.last())
    }
}

/// What is left of a statement without the declarations of `ids`: nothing, of a
/// declaration that loses all that it declares.
pub open spec fn without_decls(t: Tree, ids: Seq<Binding>) -> Seq<Tree> {
    match t {
        Tree::VarDecl { meta, kind, decls } => {
            let kept = kept_decls(decls, ids);
            if decls.len() > 0 && kept.len() == 0 {
                seq![]
            } else {
                seq![Tree::VarDecl { meta, kind, decls: kept }]
            }
        },
        _ => seq![t],
    }
}

/// The statements without the declarations of `ids`.
pub open spec fn removed(stmts: Seq<Tree>, ids: Seq<Binding>) -> Seq<Tree>
    decreases stmts.len(),
{
    if stmts.len() == 0 {
        seq![]
    } else {
        removed(stmts.drop_last(), ids) + without_decls(stmts.last(), ids)
    }
}

fn is_one_uninitialized(node: &Node, idents: &Vec<Ident>) -> (yes: bool)
    ensures
        yes <==> one_uninitialized(node@, bindings_of(ident_views(idents@))),
{
    let ghost ids = bindings_of(ident_views(idents@));
    let mut i: usize = 0;
    while i < idents.len()
        invariant
            i <= idents.len(),
            ids == bindings_of(ident_views(idents@)),
            forall|k: int| 0 <= k < i ==> !uninitialized(node@, #[trigger] ids[k]),
        decreases idents.len() - i,
    {
        if is_uninitialized(node, &idents[i]) {
            assert(uninitialized(node@, ids[i as int]));
            return true;
        }
        i += 1;
    }
    false
}

fn keep_decls(decls: Vec<Node>, idents: &Vec<Ident>) -> (kept: Vec<Node>)
    ensures
        trees(kept@) == kept_decls(trees(decls@), bindings_of(ident_views(idents@))),
{
    let ghost all = trees(decls@);
    let ghost ids = bindings_of(ident_views(idents@));
    let mut decls = decls;
    let mut kept: Vec<Node> = Vec::new();
    let mut i: usize = 0;
    while i < decls.len()
        invariant
            i <= decls.len() == all.len(),
            ids == bindings_of(ident_views(idents@)),
            forall|k: int| i <= k < all.len() ==> (#[trigger] decls@[k])@ == all[k],
            trees(kept@) == kept_decls(all.take(i as int), ids),
        decreases decls.len() - i,
    {
        let decl = take_out(&mut decls, i);
        i += 1;
        assert(all.take(i as int).drop_last() =~= all.take(i - 1));
        assert(all.take(i as int).last() == decl@);
        if !is_one_uninitialized(&decl, idents) {
            kept.push(decl);
        }
    }
    assert(all.take(i as int) =~= all);
    kept
}

/// What is left of `stmt` without the declarations of `idents`, put behind `out`.
fn push_without_decls(out: &mut Vec<Node>, stmt: Node, idents: &Vec<Ident>)
    ensures
        trees(final(out)@) == trees(old(out)@) + without_decls(
            stmt@,
            bindings_of(ident_views(idents@)),
        ),
{
    let ghost before = trees(out@);
    match stmt {
        Node::VarDecl { meta, kind, decls } => {
            let declares = decls.len() > 0;
            let kept = keep_decls(decls, idents);
            if !declares || kept.len() > 0 {
                out.push(Node::VarDecl { meta, kind, decls: kept });
            }
        },
        _ => out.push(stmt),
    }
    assert(trees(out@) =~= before + without_decls(
        stmt@,
        bindings_of(ident_views(idents@)),
    ));
}

/// Removes the declarations of `idents` that give no value.
pub fn remove_prior_uninitialized_decls(stmts: &mut Vec<Node>, idents: &Vec<Ident>)
    ensures
        trees(final(stmts)@) == removed(trees(old(stmts)@), bindings_of(ident_views(idents@))),
{
    let ghost all = trees(stmts@);
    let ghost ids = bindings_of(ident_views(idents@));
    let mut kept: Vec<Node> = Vec::new();
    let mut i: usize = 0;
    while i < stmts.len()
        invariant
            i <= stmts.len() == all.len(),
            ids == bindings_of(ident_views(idents@)),
            forall|k: int| i <= k < all.len() ==> (#[trigger] stmts@[k])@ == all[k],
            trees(kept@) == removed(all.take(i as int), ids),
        decreases stmts.len() - i,
    {
        let stmt = take_out(stmts, i);
        i += 1;
        assert(all.take(i as int).drop_last() =~= all.take(i - 1));
        assert(all.take(i as int).last() == stmt@);
        push_without_decls(&mut kept, stmt, idents);
    }
    assert(all.take(i as int) =~= all);
    std::mem::swap(stmts, &mut kept);
}

} // verus!
