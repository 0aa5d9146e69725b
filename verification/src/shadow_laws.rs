//! Where the name `Infinity` means something else, in the terms of the syntax alone.
use vstd::prelude::*;

use crate::forms::{free, inner_patterns};
use crate::rewrite::{lemma_rewritten_list, rewritten, Rewriting};
use crate::syntax::{IdentView, Mark, ModuleView, Tree, VarDeclKind};
use crate::un_infinity::{
    blocks, declarator_binds, dynamic, import_binds, infinite, infinite_module, item_binds,
    module_binds, module_blocks, param_binds, part_dynamic, pattern_binds, some_declarator_binds,
    some_dynamic, some_param_binds, some_pattern_binds, some_specifier_binds, some_stmt_binds,
    specifier_binds, stmt_binds, UnInfinity,
};
use crate::walk::children_of;

verus! {

broadcast use lemma_rewritten_list;

/// The name is `Infinity`.
pub open spec fn says_infinity(ident: IdentView) -> bool {
    ident.sym == "Infinity"@
}

/// `t` is an identifier of the name `Infinity` in the place of a pattern.
pub open spec fn infinity_pattern(t: Tree) -> bool {
    ||| t matches Tree::PatIdent { ident, .. } && says_infinity(ident)
    ||| t matches Tree::PatShorthand { ident, .. } && says_infinity(ident)
}

proof fn lemma_some_pattern(list: Seq<Tree>)
    ensures
        some_pattern_binds(list) <==> exists|i: int|
            0 <= i < list.len() && #[trigger] pattern_binds(list[i]),
    decreases list.len(),
{
    if list.len() > 0 {
        let ahead = list.drop_last();
        lemma_some_pattern(ahead);
        if some_pattern_binds(ahead) {
            let i = choose|i: int| 0 <= i < ahead.len() && #[trigger] pattern_binds(ahead[i]);
            assert(pattern_binds(list[i]));
        }
        if pattern_binds(list.last()) {
            assert(pattern_binds(list[list.len() - 1]));
        }
        if exists|i: int| 0 <= i < list.len() && #[trigger] pattern_binds(list[i]) {
            let i = choose|i: int| 0 <= i < list.len() && #[trigger] pattern_binds(list[i]);
            if i < ahead.len() {
                assert(pattern_binds(ahead[i]));
            }
        }
    }
}

/// A pattern binds the name `Infinity` if it is that name, or if one of the patterns of which
/// it consists binds it; defaults, keys and types bind nothing.
pub proof fn law_patterns_that_bind(t: Tree)
    ensures
        pattern_binds(t) <==> infinity_pattern(t) || exists|i: int|
            0 <= i < inner_patterns(t).len() && #[trigger] pattern_binds(inner_patterns(t)[i]),
{
    let parts = inner_patterns(t);
    match t {
        Tree::PatArray { elems, .. } => {
            lemma_some_pattern(elems);
        },
        Tree::PatObject { props, .. } => {
            lemma_some_pattern(props);
        },
        Tree::PatProp { value, .. } => {
            assert(pattern_binds(parts[0]) == pattern_binds(*value));
        },
        Tree::PatAssign { left, .. } => {
            assert(pattern_binds(parts[0]) == pattern_binds(*left));
        },
        Tree::PatRest { arg, .. } => {
            assert(pattern_binds(parts[0]) == pattern_binds(*arg));
        },
        _ => {},
    }
}

/// The declarator at `k` of the declaration `t` binds the name `Infinity`.
pub open spec fn declarator_at_binds(t: Tree, k: int) -> bool {
    &&& t matches Tree::VarDecl { decls, .. }
    &&& 0 <= k < decls.len()
    &&& decls[k] matches Tree::Declarator { name, .. } && pattern_binds(*name)
}

/// `t` is a declaration of the name `Infinity`.
pub open spec fn declares_infinity(t: Tree) -> bool {
    ||| exists|k: int| declarator_at_binds(t, k)
    ||| t matches Tree::FnDecl { ident, .. } && says_infinity(ident)
    ||| t matches Tree::ClassDecl { ident, .. } && says_infinity(ident)
}

/// `t` is a declaration with `var`.
pub open spec fn var_declaration(t: Tree) -> bool {
    t matches Tree::VarDecl { kind, .. } && kind == VarDeclKind::Var
}

/// A statement binds the name `Infinity` if it declares it; where declarations with `var` do
/// not count, it is none of those.
pub proof fn law_statements_that_bind(t: Tree, lexical: bool)
    ensures
        stmt_binds(t, lexical) <==> declares_infinity(t) && !(lexical && var_declaration(t)),
{
    if let Tree::VarDecl { decls, .. } = t {
        if some_declarator_binds(decls) {
            let k = choose|k: int| 0 <= k < decls.len() && #[trigger] declarator_binds(decls[k]);
            assert(declarator_at_binds(t, k));
        }
        if declares_infinity(t) {
            let k = choose|k: int| declarator_at_binds(t, k);
            assert(declarator_binds(decls[k]));
        }
    }
}

/// A module binds the name `Infinity` in its own scope if one of its items declares it or is
/// an import that brings it in.
pub proof fn law_modules_that_bind(m: ModuleView)
    ensures
        module_binds(m) <==> exists|i: int|
            0 <= i < m.body.len() && {
                ||| declares_infinity(#[trigger] m.body[i])
                ||| exists|k: int| imports_infinity(m.body[i], k)
            },
{
    assert forall|i: int| 0 <= i < m.body.len() implies item_binds(m.body[i]) == (declares_infinity(
        #[trigger] m.body[i],
    ) || exists|k: int| imports_infinity(m.body[i], k)) by {
        let t = m.body[i];
        law_statements_that_bind(t, false);
        if import_binds(t) {
            let list = t->Import_specifiers;
            let k = choose|k: int| 0 <= k < list.len() && #[trigger] specifier_binds(list[k]);
            assert(imports_infinity(t, k));
        }
        if exists|k: int| imports_infinity(t, k) {
            let k = choose|k: int| imports_infinity(t, k);
            assert(specifier_binds(t->Import_specifiers[k]));
            assert(some_specifier_binds(t->Import_specifiers));
        }
    }
    if module_binds(m) {
        let i = choose|i: int| 0 <= i < m.body.len() && #[trigger] item_binds(m.body[i]);
        assert(declares_infinity(m.body[i]) || exists|k: int| imports_infinity(m.body[i], k));
    }
}

/// `t` is an import, and the name that it brings in at `k` is `Infinity`.
pub open spec fn imports_infinity(t: Tree, k: int) -> bool {
    &&& t matches Tree::Import { specifiers, .. }
    &&& 0 <= k < specifiers.len()
    &&& specifiers[k] matches Tree::Specifier { local, .. } && says_infinity(local)
}

/// `t` is a scope of its own: code in it does not run in the scope around it.
pub open spec fn own_scope(t: Tree) -> bool {
    t is Function || t is Arrow || t is FnExpr || t is ClassExpr
}

proof fn lemma_part_dynamic(t: Tree, n: nat, mark: Mark)
    requires
        n <= children_of(t).len(),
    ensures
        part_dynamic(t, n, mark) <==> exists|i: int|
            0 <= i < n && dynamic(#[trigger] children_of(t)[i], mark),
    decreases n,
{
    if n > 0 {
        lemma_part_dynamic(t, (n - 1) as nat, mark);
        if part_dynamic(t, n, mark) && !part_dynamic(t, (n - 1) as nat, mark) {
            assert(dynamic(children_of(t)[n - 1], mark));
        }
    }
}

/// Code may bind any name in the scope around it if it is a `with` statement or a direct call
/// of the global `eval`, or if one of its parts is such code; but not if it is a scope of its
/// own.
pub proof fn law_code_that_may_bind_anything(t: Tree, mark: Mark)
    ensures
        dynamic(t, mark) <==> !own_scope(t) && {
            ||| t is With
            ||| t matches Tree::Call { callee, .. } && free(*callee, "eval"@, mark)
            ||| exists|i: int|
                0 <= i < children_of(t).len() && dynamic(#[trigger] children_of(t)[i], mark)
        },
{
    lemma_part_dynamic(t, children_of(t).len(), mark);
}

/// The parameter at `k` of the function `t` binds the name `Infinity`.
pub open spec fn parameter_at_binds(t: Tree, k: int) -> bool {
    match t {
        Tree::Function { params, .. } => 0 <= k < params.len() && match params[k] {
            Tree::Param { pat, .. } => pattern_binds(*pat),
            _ => false,
        },
        Tree::Arrow { params, .. } => 0 <= k < params.len() && pattern_binds(params[k]),
        _ => false,
    }
}

/// The statement at `k` of the statements declares the name `Infinity`; where `lexical`, not
/// with `var`.
pub open spec fn statement_at_binds(stmts: Seq<Tree>, k: int, lexical: bool) -> bool {
    0 <= k < stmts.len() && declares_infinity(stmts[k]) && !(lexical && var_declaration(stmts[k]))
}

/// `t` binds the name `Infinity` for what is inside it, or may bind it there.
pub open spec fn shadows(t: Tree, mark: Mark) -> bool {
    ||| exists|k: int| parameter_at_binds(t, k)
    ||| t matches Tree::Function { body: Some(body), .. } && *body matches Tree::FunctionBody {
        stmts,
        ..
    } && (dynamic(*body, mark) || exists|k: int| statement_at_binds(stmts, k, false))
    ||| t matches Tree::Arrow { body, .. } && dynamic(*body, mark)
    ||| t matches Tree::FnExpr { name: Some(name), .. } && says_infinity(name)
    ||| t matches Tree::ClassExpr { name: Some(name), .. } && says_infinity(name)
    ||| t matches Tree::Block { stmts, .. } && exists|k: int| statement_at_binds(stmts, k, true)
    ||| t matches Tree::Catch { param: Some(param), .. } && pattern_binds(*param)
}

proof fn lemma_some_statement(stmts: Seq<Tree>, lexical: bool)
    ensures
        some_stmt_binds(stmts, lexical) <==> exists|k: int| statement_at_binds(stmts, k, lexical),
{
    if some_stmt_binds(stmts, lexical) {
        let k = choose|k: int| 0 <= k < stmts.len() && #[trigger] stmt_binds(stmts[k], lexical);
        law_statements_that_bind(stmts[k], lexical);
        assert(statement_at_binds(stmts, k, lexical));
    }
    if exists|k: int| statement_at_binds(stmts, k, lexical) {
        let k = choose|k: int| statement_at_binds(stmts, k, lexical);
        law_statements_that_bind(stmts[k], lexical);
        assert(stmt_binds(stmts[k], lexical));
    }
}

/// What binds the name `Infinity` for what is inside it: a parameter or a declaration of a
/// function, the name of a function or class expression, a declaration of a block but with
/// `var`, and the parameter of a `catch`; besides, a function in whose scope code may bind
/// anything.
pub proof fn law_scopes_that_bind(t: Tree, mark: Mark)
    ensures
        blocks(t, mark) <==> shadows(t, mark),
{
    match t {
        Tree::Function { params, body, .. } => {
            if some_param_binds(params) {
                let k = choose|k: int| 0 <= k < params.len() && #[trigger] param_binds(params[k]);
                assert(parameter_at_binds(t, k));
            }
            if exists|k: int| parameter_at_binds(t, k) {
                let k = choose|k: int| parameter_at_binds(t, k);
                assert(param_binds(params[k]));
            }
            if let Some(body) = body {
                if let Tree::FunctionBody { stmts, .. } = *body {
                    lemma_some_statement(stmts, false);
                }
            }
        },
        Tree::Arrow { params, .. } => {
            lemma_some_pattern(params);
            if some_pattern_binds(params) {
                let k = choose|k: int| 0 <= k < params.len() && #[trigger] pattern_binds(params[k]);
                assert(parameter_at_binds(t, k));
            }
            if exists|k: int| parameter_at_binds(t, k) {
                let k = choose|k: int| parameter_at_binds(t, k);
                assert(pattern_binds(params[k]));
            }
        },
        Tree::Block { stmts, .. } => {
            lemma_some_statement(stmts, true);
        },
        _ => {},
    }
}

/// The name `Infinity` is taken for something else inside syntax that binds it, and inside
/// syntax that stands where it is; nowhere else. There nothing changes, and elsewhere
/// quotients become what they are without such a binding.
pub proof fn law_binding_reaches_inwards(rule: UnInfinity, state: bool, t: Tree)
    ensures
        rule.entered(state, t) == (state || shadows(t, rule.unresolved_mark)),
        rule.entered_with(state) == state,
        rule.left(true, t) == t,
        rule.left(false, t) == infinite(t, rule.unresolved_mark),
{
    law_scopes_that_bind(t, rule.unresolved_mark);
}

/// A module stays as it is where the rule is blocked, where the module binds the name
/// `Infinity`, and where code in its scope may bind anything; otherwise its items are
/// rewritten one by one.
pub proof fn law_modules_item_by_item(m: ModuleView, rule: UnInfinity)
    ensures
        infinite_module(m, rule).span == m.span,
        infinite_module(m, rule).body.len() == m.body.len(),
        forall|i: int|
            0 <= i < m.body.len() ==> #[trigger] infinite_module(m, rule).body[i] == rewritten(
                rule,
                rule.blocked || module_binds(m) || exists|k: int|
                    0 <= k < m.body.len() && dynamic(
                        #[trigger] m.body[k],
                        rule.unresolved_mark,
                    ),
                m.body[i],
            ),
{
    let mark = rule.unresolved_mark;
    assert(some_dynamic(m.body, mark) == exists|k: int|
        0 <= k < m.body.len() && dynamic(#[trigger] m.body[k], mark)) by {
        if some_dynamic(m.body, mark) {
            let k = choose|k: int| 0 <= k < m.body.len() && #[trigger] dynamic(m.body[k], mark);
            assert(dynamic(m.body[k], mark));
        }
    }
    assert(module_blocks(m, mark) == (module_binds(m) || some_dynamic(m.body, mark)));
}

} // verus!
