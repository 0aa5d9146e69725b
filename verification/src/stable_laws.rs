//! Which bindings never change their value, in the terms of the syntax alone.
use vstd::prelude::*;

use crate::bindings::{
    assigns, declares_const, module_declares_const, module_writes_to, namespace, own_write,
    part_declares_const, part_writes_to, pattern_binds, some_assigns, some_declares_const,
    some_namespace, some_pattern_binds, some_writes_to, stable_bindings, writes_to, Binding,
};
use crate::forms::{inner_patterns, mentions};
use crate::syntax::{ModuleView, SpecifierKind, Tree, TypedKind, VarDeclKind};
use crate::use_laws::pattern_of;
use crate::walk::children_of;

verus! {

proof fn lemma_some_pattern(list: Seq<Tree>, id: Binding)
    ensures
        some_pattern_binds(list, id) <==> exists|i: int|
            0 <= i < list.len() && pattern_binds(#[trigger] list[i], id),
    decreases list.len(),
{
    if list.len() > 0 {
        let ahead = list.drop_last();
        lemma_some_pattern(ahead, id);
        assert(forall|i: int| 0 <= i < ahead.len() ==> #[trigger] ahead[i] == list[i]);
        assert(list[list.len() - 1] == list.last());
        if some_pattern_binds(ahead, id) {
            let i = choose|i: int| 0 <= i < ahead.len() && pattern_binds(#[trigger] ahead[i], id);
            assert(pattern_binds(list[i], id));
        }
        if exists|i: int| 0 <= i < list.len() && pattern_binds(#[trigger] list[i], id) {
            let i = choose|i: int| 0 <= i < list.len() && pattern_binds(#[trigger] list[i], id);
            if i < ahead.len() {
                assert(pattern_binds(ahead[i], id));
            }
        }
    }
}

/// The pattern of a declaration binds the variables that it names, and those that the
/// patterns bind of which it consists.
pub proof fn law_variables_of_a_pattern(t: Tree, id: Binding)
    ensures
        pattern_binds(t, id) <==> pattern_of(t, id) || exists|i: int|
            0 <= i < inner_patterns(t).len() && pattern_binds(
                #[trigger] inner_patterns(t)[i],
                id,
            ),
{
    let parts = inner_patterns(t);
    match t {
        Tree::PatArray { elems, .. } => {
            lemma_some_pattern(elems, id);
        },
        Tree::PatObject { props, .. } => {
            lemma_some_pattern(props, id);
        },
        Tree::PatProp { value, .. } => {
            assert(pattern_binds(parts[0], id) == pattern_binds(*value, id));
        },
        Tree::PatAssign { left, .. } => {
            assert(pattern_binds(parts[0], id) == pattern_binds(*left, id));
        },
        Tree::PatRest { arg, .. } => {
            assert(pattern_binds(parts[0], id) == pattern_binds(*arg, id));
        },
        _ => {},
    }
}

proof fn lemma_some_assigns(list: Seq<Tree>, id: Binding)
    ensures
        some_assigns(list, id) <==> exists|i: int|
            0 <= i < list.len() && assigns(#[trigger] list[i], id),
    decreases list.len(),
{
    if list.len() > 0 {
        let ahead = list.drop_last();
        lemma_some_assigns(ahead, id);
        assert(list[list.len() - 1] == list.last());
        if some_assigns(ahead, id) {
            let i = choose|i: int| 0 <= i < ahead.len() && assigns(#[trigger] ahead[i], id);
            assert(assigns(list[i], id));
        }
        if exists|i: int| 0 <= i < list.len() && assigns(#[trigger] list[i], id) {
            let i = choose|i: int| 0 <= i < list.len() && assigns(#[trigger] list[i], id);
            if i < ahead.len() {
                assert(assigns(ahead[i], id));
            }
        }
    }
}

/// An assignment to a target writes to the variable that the target is, in parentheses or
/// under a TypeScript wrapper other than `as const`, and to those to which an assignment to
/// one of its patterns writes.
pub proof fn law_variables_of_a_target(t: Tree, id: Binding)
    ensures
        assigns(t, id) <==> {
            ||| mentions(t, id) || pattern_of(t, id)
            ||| t matches Tree::Paren { expr, .. } && assigns(*expr, id)
            ||| t matches Tree::Typed { kind, expr, .. } && kind != TypedKind::ConstAssertion
                && assigns(*expr, id)
            ||| exists|i: int|
                0 <= i < inner_patterns(t).len() && assigns(#[trigger] inner_patterns(t)[i], id)
        },
{
    let parts = inner_patterns(t);
    match t {
        Tree::PatArray { elems, .. } => {
            lemma_some_assigns(elems, id);
        },
        Tree::PatObject { props, .. } => {
            lemma_some_assigns(props, id);
        },
        Tree::PatProp { value, .. } => {
            assert(assigns(parts[0], id) == assigns(*value, id));
        },
        Tree::PatAssign { left, .. } => {
            assert(assigns(parts[0], id) == assigns(*left, id));
        },
        Tree::PatRest { arg, .. } => {
            assert(assigns(parts[0], id) == assigns(*arg, id));
        },
        _ => {},
    }
}

/// `t` is a declaration with `const`.
pub open spec fn const_declaration(t: Tree) -> bool {
    t matches Tree::VarDecl { kind, .. } && kind == VarDeclKind::Const
}

/// The import `t` brings in a namespace as `id` at `k`.
pub open spec fn namespace_at(t: Tree, k: int, id: Binding) -> bool {
    &&& t matches Tree::Import { specifiers, .. }
    &&& 0 <= k < specifiers.len()
    &&& specifiers[k] matches Tree::Specifier { kind, local, .. }
    &&& kind == SpecifierKind::Namespace && local.sym == id.0 && local.ctxt == id.1
}

/// The declarator at `k` of the declaration `t` declares `id`.
pub open spec fn declarator_at(t: Tree, k: int, id: Binding) -> bool {
    &&& t matches Tree::VarDecl { decls, .. }
    &&& 0 <= k < decls.len()
    &&& decls[k] matches Tree::Declarator { name, .. } && pattern_binds(*name, id)
}

/// The value of the declarator at `k` of the declaration `t`.
pub open spec fn value_at(t: Tree, k: int) -> Option<Tree> {
    match t {
        Tree::VarDecl { decls, .. } => if 0 <= k < decls.len() {
            match decls[k] {
                Tree::Declarator { init: Some(init), .. } => Some(*init),
                _ => None,
            }
        } else {
            None
        },
        _ => None,
    }
}

proof fn lemma_some_namespace(list: Seq<Tree>, id: Binding)
    ensures
        some_namespace(list, id) <==> exists|i: int|
            0 <= i < list.len() && namespace(#[trigger] list[i], id),
    decreases list.len(),
{
    if list.len() > 0 {
        let ahead = list.drop_last();
        lemma_some_namespace(ahead, id);
        assert(list[list.len() - 1] == list.last());
        if some_namespace(ahead, id) {
            let i = choose|i: int| 0 <= i < ahead.len() && namespace(#[trigger] ahead[i], id);
            assert(namespace(list[i], id));
        }
        if exists|i: int| 0 <= i < list.len() && namespace(#[trigger] list[i], id) {
            let i = choose|i: int| 0 <= i < list.len() && namespace(#[trigger] list[i], id);
            if i < ahead.len() {
                assert(namespace(ahead[i], id));
            }
        }
    }
}

/// The declarator `t` declares `id` as a constant, or its value does.
spec fn one_declares_const(t: Tree, id: Binding) -> bool {
    match t {
        Tree::Declarator { name, init, .. } => pattern_binds(*name, id) || (init is Some
            && declares_const(*init->0, id)),
        _ => false,
    }
}

proof fn lemma_some_declares_const(list: Seq<Tree>, id: Binding)
    ensures
        some_declares_const(list, id) <==> exists|i: int|
            0 <= i < list.len() && one_declares_const(#[trigger] list[i], id),
    decreases list.len(),
{
    if list.len() > 0 {
        let ahead = list.drop_last();
        lemma_some_declares_const(ahead, id);
        assert(list[list.len() - 1] == list.last());
        if some_declares_const(ahead, id) {
            let i = choose|i: int|
                0 <= i < ahead.len() && one_declares_const(#[trigger] ahead[i], id);
            assert(one_declares_const(list[i], id));
        }
        if exists|i: int| 0 <= i < list.len() && one_declares_const(#[trigger] list[i], id) {
            let i = choose|i: int|
                0 <= i < list.len() && one_declares_const(#[trigger] list[i], id);
            if i < ahead.len() {
                assert(one_declares_const(ahead[i], id));
            }
        }
    }
}

proof fn lemma_part_declares_const(t: Tree, n: nat, id: Binding)
    requires
        n <= children_of(t).len(),
    ensures
        part_declares_const(t, n, id) <==> exists|i: int|
            0 <= i < n && declares_const(#[trigger] children_of(t)[i], id),
    decreases n,
{
    if n > 0 {
        lemma_part_declares_const(t, (n - 1) as nat, id);
        if part_declares_const(t, n, id) && !part_declares_const(t, (n - 1) as nat, id) {
            assert(declares_const(children_of(t)[n - 1], id));
        }
    }
}

/// A constant is what an import brings in as a namespace, or what a declaration with `const`
/// declares, wherever in the syntax it stands; in such a declaration, the values are looked
/// at as well.
pub proof fn law_constants(t: Tree, id: Binding)
    ensures
        t is Import ==> (declares_const(t, id) <==> exists|k: int| namespace_at(t, k, id)),
        const_declaration(t) ==> (declares_const(t, id) <==> exists|k: int|
            declarator_at(t, k, id) || (value_at(t, k) is Some && declares_const(
                #[trigger] value_at(t, k)->0,
                id,
            ))),
        !(t is Import) && !const_declaration(t) ==> (declares_const(t, id) <==> exists|i: int|
            0 <= i < children_of(t).len() && declares_const(#[trigger] children_of(t)[i], id)),
{
    if let Tree::Import { specifiers, .. } = t {
        lemma_some_namespace(specifiers, id);
        if some_namespace(specifiers, id) {
            let k = choose|k: int|
                0 <= k < specifiers.len() && namespace(#[trigger] specifiers[k], id);
            assert(namespace_at(t, k, id));
        }
        if exists|k: int| namespace_at(t, k, id) {
            let k = choose|k: int| namespace_at(t, k, id);
            assert(namespace(specifiers[k], id));
        }
    } else if const_declaration(t) {
        let decls = t->VarDecl_decls;
        lemma_some_declares_const(decls, id);
        if some_declares_const(decls, id) {
            let k = choose|k: int|
                0 <= k < decls.len() && one_declares_const(#[trigger] decls[k], id);
            assert(declarator_at(t, k, id) || declares_const(value_at(t, k)->0, id));
        }
        if exists|k: int|
            declarator_at(t, k, id) || (value_at(t, k) is Some && declares_const(
                #[trigger] value_at(t, k)->0,
                id,
            )) {
            let k = choose|k: int|
                declarator_at(t, k, id) || (value_at(t, k) is Some && declares_const(
                    #[trigger] value_at(t, k)->0,
                    id,
                ));
            assert(one_declares_const(decls[k], id));
        }
    } else {
        lemma_part_declares_const(t, children_of(t).len(), id);
    }
}

/// The value of the declarator `t` writes to `id`.
spec fn one_writes_to(t: Tree, id: Binding) -> bool {
    match t {
        Tree::Declarator { init: Some(init), .. } => writes_to(*init, id),
        _ => false,
    }
}

proof fn lemma_some_writes_to(list: Seq<Tree>, id: Binding)
    ensures
        some_writes_to(list, id) <==> exists|i: int|
            0 <= i < list.len() && one_writes_to(#[trigger] list[i], id),
    decreases list.len(),
{
    if list.len() > 0 {
        let ahead = list.drop_last();
        lemma_some_writes_to(ahead, id);
        assert(list[list.len() - 1] == list.last());
        if some_writes_to(ahead, id) {
            let i = choose|i: int| 0 <= i < ahead.len() && one_writes_to(#[trigger] ahead[i], id);
            assert(one_writes_to(list[i], id));
        }
        if exists|i: int| 0 <= i < list.len() && one_writes_to(#[trigger] list[i], id) {
            let i = choose|i: int| 0 <= i < list.len() && one_writes_to(#[trigger] list[i], id);
            if i < ahead.len() {
                assert(one_writes_to(ahead[i], id));
            }
        }
    }
}

proof fn lemma_part_writes_to(t: Tree, n: nat, id: Binding)
    requires
        n <= children_of(t).len(),
    ensures
        part_writes_to(t, n, id) <==> exists|i: int|
            0 <= i < n && writes_to(#[trigger] children_of(t)[i], id),
    decreases n,
{
    if n > 0 {
        lemma_part_writes_to(t, (n - 1) as nat, id);
        if part_writes_to(t, n, id) && !part_writes_to(t, (n - 1) as nat, id) {
            assert(writes_to(children_of(t)[n - 1], id));
        }
    }
}

/// What `t` by itself writes to: the target of an assignment, of an update, or of a loop over
/// what is in something.
pub open spec fn target_of(t: Tree) -> Option<Tree> {
    match t {
        Tree::Assign { left, .. } => Some(*left),
        Tree::Update { arg, .. } => Some(*arg),
        Tree::ForEach { left, .. } => Some(*left),
        _ => None,
    }
}

/// A variable is written to by an assignment, an update or a loop whose target it is,
/// wherever in the syntax that stands. Imports write to nothing, and of a declaration with
/// `const` only the values are looked at.
pub proof fn law_writes(t: Tree, id: Binding)
    ensures
        t is Import ==> !writes_to(t, id),
        const_declaration(t) ==> (writes_to(t, id) <==> exists|k: int|
            value_at(t, k) is Some && writes_to(#[trigger] value_at(t, k)->0, id)),
        !(t is Import) && !const_declaration(t) ==> (writes_to(t, id) <==> {
            ||| target_of(t) is Some && assigns(target_of(t)->0, id)
            ||| exists|i: int|
                0 <= i < children_of(t).len() && writes_to(#[trigger] children_of(t)[i], id)
        }),
{
    if t is Import {
    } else if const_declaration(t) {
        let decls = t->VarDecl_decls;
        lemma_some_writes_to(decls, id);
        if some_writes_to(decls, id) {
            let k = choose|k: int| 0 <= k < decls.len() && one_writes_to(#[trigger] decls[k], id);
            assert(writes_to(value_at(t, k)->0, id));
        }
        if exists|k: int|
            value_at(t, k) is Some && writes_to(#[trigger] value_at(t, k)->0, id) {
            let k = choose|k: int|
                value_at(t, k) is Some && writes_to(#[trigger] value_at(t, k)->0, id);
            assert(one_writes_to(decls[k], id));
        }
    } else {
        lemma_part_writes_to(t, children_of(t).len(), id);
        assert(own_write(t, id) == (target_of(t) is Some && assigns(target_of(t)->0, id)));
    }
}

/// The bindings of a module that never change are the constants that one of its items
/// declares, and to which none of its items writes.
pub proof fn law_stable_bindings(m: ModuleView, id: Binding)
    ensures
        stable_bindings(m).contains(id) <==> {
            &&& exists|i: int| 0 <= i < m.body.len() && declares_const(#[trigger] m.body[i], id)
            &&& forall|i: int| 0 <= i < m.body.len() ==> !writes_to(#[trigger] m.body[i], id)
        },
{
    if module_declares_const(m, id) {
        let i = choose|i: int| 0 <= i < m.body.len() && #[trigger] declares_const(m.body[i], id);
        assert(declares_const(m.body[i], id));
    }
    if module_writes_to(m, id) {
        let i = choose|i: int| 0 <= i < m.body.len() && #[trigger] writes_to(m.body[i], id);
        assert(writes_to(m.body[i], id));
    }
}

} // verus!
